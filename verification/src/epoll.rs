//! An event queue in the manner of epoll, on top of waiting for a set of system objects.

use crate::os::IoError;
use std::collections::HashMap;
use vstd::prelude::*;
use vstd::std_specs::iter::IteratorSpec;

verus! {

/// What a wait comes back with when no object was signalled in time.
pub const WAIT_TIMEOUT: u32 = 258;

/// What a wait comes back with when its first object was signalled.
pub const WAIT_OBJECT_0: u32 = 0;

/// How long a wait without a timeout lasts, in milliseconds.
pub const DEFAULT_TIMEOUT: u32 = 3000;

#[derive(Clone, Copy, Debug, PartialEq, Eq, Structural)]
pub enum ControlOperation {
    Add,
    Modify,
    Delete,
}

/// A set of event kinds, each of which is one bit.
#[derive(Clone, Copy, Debug, PartialEq, Eq, Structural)]
pub struct EventSet {
    bits: u32,
}

impl EventSet {
    pub const IN: u32 = 0b00000001;

    pub const OUT: u32 = 0b00000010;

    pub const HANG_UP: u32 = 0b00000100;

    pub const READ_HANG_UP: u32 = 0b00001000;

    pub const EDGE_TRIGGERED: u32 = 0b00010000;

    /// The bits of the event kinds in the set.
    pub closed spec fn spec_bits(self) -> u32 {
        self.bits
    }

    #[verifier::type_invariant]
    spec fn only_known_bits(self) -> bool {
        known_bits(self.bits)
    }

    /// The bits of the event kinds in the set.
    pub fn bits(&self) -> (bits: u32)
        ensures
            bits == self.spec_bits(),
            known_bits(bits),
    {
        proof {
            use_type_invariant(self);
        }
        self.bits
    }

    /// The set with the given bits, if each of them is an event kind.
    pub fn from_bits(bits: u32) -> (r: Option<EventSet>)
        ensures
            match r {
                Some(set) => known_bits(bits) && set.spec_bits() == bits,
                None => !known_bits(bits),
            },
            r is Some <==> bits < 32,
    {
        if bits <= 0b00011111 {
            Some(EventSet { bits })
        } else {
            None
        }
    }
}

/// Each bit is one of the five event kinds.
pub open spec fn known_bits(bits: u32) -> bool {
    bits <= 0b00011111
}

/// Kinds of events, and the data of the user's that came with their registration.
#[derive(Clone, Copy, Debug, PartialEq, Eq, Structural)]
pub struct EpollEvent {
    pub events: u32,
    data: u64,
}

impl Default for EpollEvent {
    fn default() -> (e: Self)
        ensures
            e.spec_events() == 0,
            e.spec_data() == 0,
    {
        EpollEvent { events: 0, data: 0 }
    }
}

impl EpollEvent {
    /// The bits of the kinds of events.
    pub closed spec fn spec_events(self) -> u32 {
        self.events
    }

    /// The user's data.
    pub closed spec fn spec_data(self) -> u64 {
        self.data
    }

    pub fn new(events: EventSet, data: u64) -> (e: Self)
        ensures
            e.spec_events() == events.spec_bits(),
            known_bits(e.spec_events()),
            e.spec_data() == data,
    {
        EpollEvent { events: events.bits(), data }
    }

    pub fn events(&self) -> (events: u32)
        ensures
            events == self.spec_events(),
    {
        self.events
    }

    /// The kinds of events, all of which must be known.
    pub fn event_set(&self) -> (set: EventSet)
        requires
            known_bits(self.spec_events()),
        ensures
            set.spec_bits() == self.spec_events(),
    {
        EventSet::from_bits(self.events()).unwrap()
    }

    pub fn data(&self) -> (data: u64)
        ensures
            data == self.spec_data(),
    {
        self.data
    }

    /// The user's data as a handle: as many of its low bits as a handle has.
    pub fn fd(&self) -> (handle: usize)
        ensures
            handle == self.spec_data() as usize,
            self.spec_data() <= usize::MAX ==> handle == self.spec_data(),
    {
        self.data as usize
    }
}

#[derive(Clone, Copy, Debug)]
struct Registration {
    handle: usize,
    event: EpollEvent,
}

/// The handles that are waited for, each with the event that is reported when it is signalled.
#[derive(Debug)]
pub struct Epoll {
    registrations: HashMap<usize, Registration>,
}

impl View for Epoll {
    type V = Map<usize, EpollEvent>;

    /// The registered handles, each with its event.
    closed spec fn view(&self) -> Map<usize, EpollEvent> {
        self.registrations@.map_values(|r: Registration| r.event)
    }
}

/// The registered handles after an operation on one of them.
pub open spec fn controlled(
    regs: Map<usize, EpollEvent>,
    operation: ControlOperation,
    fd: usize,
    event: EpollEvent,
) -> Map<usize, EpollEvent> {
    match operation {
        ControlOperation::Add => regs.insert(fd, event),
        ControlOperation::Modify => if regs.contains_key(fd) {
            regs.insert(fd, event)
        } else {
            regs
        },
        ControlOperation::Delete => regs.remove(fd),
    }
}

/// What a wait on a queue comes down to. What it comes back with, `complete` tells.
#[derive(Debug)]
pub enum WaitStep {
    /// Nothing is registered: sleep for so many milliseconds.
    Idle { sleep_ms: u64 },
    /// Wait for the objects of a request.
    Wait(WaitRequest),
}

/// A wait for any one of a list of objects.
#[derive(Debug)]
pub struct WaitRequest {
    pub handles: Vec<usize>,
    /// The event to report for each of the handles.
    pub events: Vec<EpollEvent>,
    pub timeout_ms: u32,
}

impl WaitRequest {
    /// The request waits for each registered handle once, with the event of that handle.
    pub open spec fn covers(self, regs: Map<usize, EpollEvent>) -> bool {
        &&& self.wf()
        &&& self.handles@.no_duplicates()
        &&& self.handles@.to_set() == regs.dom()
        &&& forall|i: int|
            0 <= i < self.handles.len() ==> #[trigger] self.events[i] == regs[self.handles[i]]
    }

    /// There is one event for each handle.
    pub open spec fn wf(self) -> bool {
        self.handles.len() == self.events.len()
    }

    /// The number of events that a wait which came back with `result` reports.
    pub open spec fn count(self, result: u32, max_events: usize) -> Result<usize, IoError> {
        if result == WAIT_TIMEOUT {
            Ok(0)
        } else if result < self.handles.len() {
            Ok(
                if max_events > 0 {
                    1
                } else {
                    0
                },
            )
        } else {
            Err(IoError::WaitForMultipleObjectsFailed)
        }
    }

    /// A wait which came back with `result` makes the list of events `after` out of `before`: the
    /// first one is the event of the object that was signalled, as readable, if one is reported
    /// and there is room. All else stays as it is.
    pub open spec fn reports(
        self,
        result: u32,
        max_events: usize,
        before: Seq<EpollEvent>,
        after: Seq<EpollEvent>,
    ) -> bool {
        if self.count(result, max_events) == Ok::<usize, IoError>(1) && before.len() > 0 {
            &&& after.len() == before.len()
            &&& after[0].spec_events() == EventSet::IN
            &&& after[0].spec_data() == self.events[result as int].spec_data()
            &&& forall|i: int| 0 < i < before.len() ==> #[trigger] after[i] == before[i]
        } else {
            after == before
        }
    }

    /// Reports the event of the object that was signalled, as the wait's `result` tells, as
    /// readable. At most one event is reported.
    pub fn complete(&self, result: u32, max_events: usize, events: &mut [EpollEvent]) -> (r: Result<
        usize,
        IoError,
    >)
        requires
            self.wf(),
        ensures
            r == self.count(result, max_events),
            self.reports(result, max_events, old(events)@, final(events)@),
            r == if result == 258 {
                Ok::<usize, IoError>(0)
            } else if result >= self.handles.len() {
                Err(IoError::WaitForMultipleObjectsFailed)
            } else if max_events == 0 {
                Ok(0)
            } else {
                Ok(1)
            },
            final(events)@.len() == old(events)@.len(),
            forall|i: int|
                0 <= i < old(events)@.len() && (i > 0 || r != Ok::<usize, IoError>(1)) ==> (
                #[trigger] final(events)@[i]) == old(events)@[i],
            r == Ok::<usize, IoError>(1) && old(events)@.len() > 0 ==> {
                &&& final(events)@[0].spec_events() == 1
                &&& final(events)@[0].spec_data() == self.events[result as int].spec_data()
            },
    {
        if result == WAIT_TIMEOUT {
            return Ok(0);
        }
        let index: usize = (result - WAIT_OBJECT_0) as usize;
        if index < self.handles.len() {
            let count: usize = if max_events < 1 { max_events } else { 1 };
            if count > 0 && events.len() > 0 {
                events[0] = EpollEvent { events: EventSet::IN, data: self.events[index].data };
            }
            Ok(count)
        } else {
            Err(IoError::WaitForMultipleObjectsFailed)
        }
    }
}

impl WaitStep {
    /// Comes back from a wait: with the event of the object that was signalled, as `result`
    /// tells, or, where nothing is registered, with no event, whatever the result.
    pub fn complete(&self, result: u32, max_events: usize, events: &mut [EpollEvent]) -> (r: Result<
        usize,
        IoError,
    >)
        requires
            *self matches WaitStep::Wait(request) ==> request.wf(),
        ensures
            match *self {
                WaitStep::Idle { .. } => r == Ok::<usize, IoError>(0) && final(events)@ == old(
                    events,
                )@,
                WaitStep::Wait(request) => r == request.count(result, max_events)
                    && request.reports(result, max_events, old(events)@, final(events)@),
            },
    {
        match self {
            WaitStep::Idle { .. } => Ok(0),
            WaitStep::Wait(request) => request.complete(result, max_events, events),
        }
    }
}

impl Clone for Epoll {
    fn clone(&self) -> (r: Self)
        ensures
            r@ == self@,
            self.wf() ==> r.wf(),
    {
        Epoll { registrations: self.registrations.clone() }
    }
}

impl Epoll {
    /// Each registration is found under its own handle.
    pub closed spec fn wf(self) -> bool {
        forall|k: usize|
            self.registrations@.contains_key(k) ==> (#[trigger] self.registrations@[k]).handle == k
    }

    pub fn new() -> (r: Result<Self, IoError>)
        ensures
            r matches Ok(epoll) && epoll.wf() && epoll@ == Map::<usize, EpollEvent>::empty(),
    {
        let epoll = Epoll { registrations: HashMap::new() };
        assert(epoll@ =~= Map::<usize, EpollEvent>::empty());
        Ok(epoll)
    }

    /// Adds a handle, changes the event of a registered handle, or removes a handle.
    pub fn ctl(&mut self, operation: ControlOperation, fd: usize, event: &EpollEvent) -> (r: Result<
        (),
        IoError,
    >)
        requires
            old(self).wf(),
        ensures
            r is Ok,
            final(self).wf(),
            final(self)@ == controlled(old(self)@, operation, fd, *event),
            final(self)@.contains_key(fd) <==> match operation {
                ControlOperation::Add => true,
                ControlOperation::Modify => old(self)@.contains_key(fd),
                ControlOperation::Delete => false,
            },
            final(self)@.contains_key(fd) ==> final(self)@[fd] == *event,
            forall|other: usize|
                other != fd ==> final(self)@.contains_key(other) == #[trigger] old(
                    self,
                )@.contains_key(other),
            forall|other: usize|
                other != fd && #[trigger] old(self)@.contains_key(other) ==> final(self)@[other]
                    == old(self)@[other],
    {
        broadcast use vstd::std_specs::hash::group_hash_axioms;

        match operation {
            ControlOperation::Add => {
                self.registrations.insert(fd, Registration { handle: fd, event: *event });
            },
            ControlOperation::Modify => {
                if self.registrations.contains_key(&fd) {
                    self.registrations.insert(fd, Registration { handle: fd, event: *event });
                }
            },
            ControlOperation::Delete => {
                self.registrations.remove(&fd);
            },
        }
        assert(self@ =~= controlled(old(self)@, operation, fd, *event));
        Ok(())
    }

    /// Starts a wait for the registered handles. A negative timeout stands for the default one.
    pub fn wait(&self, timeout: i32) -> (step: WaitStep)
        requires
            self.wf(),
        ensures
            if self@.dom().is_empty() {
                step == (WaitStep::Idle { sleep_ms: if timeout > 0 { timeout as u64 } else { 0 } })
            } else {
                step matches WaitStep::Wait(request) && request.covers(self@) && request.timeout_ms
                    == if timeout < 0 { DEFAULT_TIMEOUT } else { timeout as u32 }
            },
            step is Idle <==> self@.dom().is_empty(),
            step matches WaitStep::Idle { sleep_ms } ==> sleep_ms == if timeout > 0 {
                timeout as int
            } else {
                0
            },
            step matches WaitStep::Wait(request) ==> {
                &&& request.timeout_ms == if timeout < 0 {
                    3000
                } else {
                    timeout as int
                }
                &&& request.handles.len() == request.events.len()
                &&& forall|i: int|
                    0 <= i < request.handles.len() ==> self@.contains_key(
                        #[trigger] request.handles[i],
                    ) && request.events[i] == self@[request.handles[i]]
                &&& forall|i: int, j: int|
                    0 <= i < j < request.handles.len() ==> request.handles[i] != request.handles[j]
                &&& forall|fd: usize| #[trigger]
                    self@.contains_key(fd) ==> exists|i: int|
                        0 <= i < request.handles.len() && request.handles[i] == fd
            },
    {
        broadcast use vstd::std_specs::hash::group_hash_axioms;

        if self.registrations.is_empty() {
            assert(self@.dom() =~= Set::empty());
            return WaitStep::Idle { sleep_ms: if timeout > 0 { timeout as u64 } else { 0 } };
        }
        let mut handles: Vec<usize> = Vec::new();
        let mut events: Vec<EpollEvent> = Vec::new();
        let ghost regs = self.registrations@;
        let ghost pairs = vstd::std_specs::hash::spec_hash_map_iter(&self.registrations).remaining();
        for (_key, registration) in it: self.registrations.iter()
            invariant
                self.wf(),
                regs == self.registrations@,
                it.seq() == pairs,
                pairs.no_duplicates(),
                forall|i: int|
                    0 <= i < pairs.len() ==> regs.contains_key(*(#[trigger] pairs[i]).0)
                        && regs[*pairs[i].0] == *pairs[i].1,
                handles.len() == it.index(),
                events.len() == it.index(),
                forall|i: int|
                    0 <= i < it.index() ==> #[trigger] handles@[i] == *pairs[i].0,
                forall|i: int|
                    0 <= i < it.index() ==> #[trigger] events@[i] == (*pairs[i].1).event,
        {
            assert(regs[*pairs[it.index()].0] == *registration);
            handles.push(registration.handle);
            events.push(registration.event);
        }
        proof {
            assert(regs =~= self.registrations@);
            assert forall|i: int, j: int|
                0 <= i < handles.len() && 0 <= j < handles.len() && i != j implies handles@[i]
                != handles@[j] by {
                assert(pairs[i] != pairs[j]);
            }
            assert forall|k: usize| #[trigger] self@.dom().contains(k) implies handles@.contains(
                k,
            ) by {
                assert(regs.contains_key(k));
                assert(pairs.contains((&k, &regs[k])));
                let i = choose|i: int| 0 <= i < pairs.len() && pairs[i] == (&k, &regs[k]);
                assert(handles@[i] == k);
            }
            assert(handles@.to_set() =~= self@.dom());
            assert forall|i: int| 0 <= i < handles.len() implies self@.contains_key(
                #[trigger] handles[i],
            ) by {
                assert(regs.contains_key(*pairs[i].0));
            }
        }
        assert(!self@.dom().is_empty());
        let timeout_ms: u32 = if timeout < 0 { DEFAULT_TIMEOUT } else { timeout as u32 };
        WaitStep::Wait(WaitRequest { handles, events, timeout_ms })
    }

    /// A queue has no handle of its own.
    pub fn as_raw_handle(&self) -> (handle: usize)
        ensures
            handle == 0,
    {
        0
    }
}

/// The kinds of events that an event was made with are the ones that it gives back.
pub proof fn lemma_event_set_of_new(set: EventSet, event: EpollEvent, given: EventSet)
    requires
        event.spec_events() == set.spec_bits(),
        given.spec_bits() == event.spec_events(),
    ensures
        given == set,
{
}

/// An operation on one handle leaves every other handle as it is.
pub proof fn lemma_control_frame(
    regs: Map<usize, EpollEvent>,
    operation: ControlOperation,
    fd: usize,
    event: EpollEvent,
    other: usize,
)
    requires
        other != fd,
    ensures
        controlled(regs, operation, fd, event).contains_key(other) == regs.contains_key(other),
        regs.contains_key(other) ==> controlled(regs, operation, fd, event)[other] == regs[other],
{
}

/// A handle that was not registered before is gone after it has been added and deleted, and
/// nothing else has changed.
pub proof fn lemma_delete_undoes_add(
    regs: Map<usize, EpollEvent>,
    fd: usize,
    added: EpollEvent,
    deleted: EpollEvent,
)
    requires
        !regs.contains_key(fd),
    ensures
        controlled(
            controlled(regs, ControlOperation::Add, fd, added),
            ControlOperation::Delete,
            fd,
            deleted,
        ) == regs,
{
    assert(regs.insert(fd, added).remove(fd) =~= regs);
}

/// Of two additions of one handle, the later one counts; changing the event of an added handle is
/// the same as adding it anew.
pub proof fn lemma_last_event_counts(
    regs: Map<usize, EpollEvent>,
    fd: usize,
    first: EpollEvent,
    last: EpollEvent,
)
    ensures
        controlled(
            controlled(regs, ControlOperation::Add, fd, first),
            ControlOperation::Add,
            fd,
            last,
        ) == controlled(regs, ControlOperation::Add, fd, last),
        controlled(
            controlled(regs, ControlOperation::Add, fd, first),
            ControlOperation::Modify,
            fd,
            last,
        ) == controlled(regs, ControlOperation::Add, fd, last),
{
    assert(regs.insert(fd, first).insert(fd, last) =~= regs.insert(fd, last));
}

/// A wait covers every registered handle: exactly one place in the request stands for it, and
/// there the request holds the event that it was registered with.
pub proof fn lemma_wait_covers_handle(
    request: WaitRequest,
    regs: Map<usize, EpollEvent>,
    fd: usize,
) -> (i: int)
    requires
        request.covers(regs),
        regs.contains_key(fd),
    ensures
        0 <= i < request.handles.len(),
        request.handles[i] == fd,
        request.events[i] == regs[fd],
        forall|j: int|
            0 <= j < request.handles.len() && #[trigger] request.handles[j] == fd ==> j == i,
{
    assert(request.handles@.to_set().contains(fd));
    let i = choose|i: int| 0 <= i < request.handles@.len() && request.handles@[i] == fd;
    assert(request.events[i] == regs[request.handles[i]]);
    i
}

} // verus!
