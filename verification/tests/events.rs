use vm_memory::{GuestAddress, GuestMemoryMmap};
use whp_vmm::epoll::{
    ControlOperation, Epoll, EpollEvent, EventSet, WaitRequest, WaitStep,
};
use whp_vmm::errno;
use whp_vmm::eventfd::{EventCall, EventFd, EFD_NONBLOCK, EFD_SEMAPHORE};
use whp_vmm::os::{IoError, IoErrorKind, OsError};
use whp_vmm::whpioapic::{DeviceError, WhpIoapic};

fn event(bits: u32, data: u64) -> EpollEvent {
    EpollEvent::new(EventSet::from_bits(bits).unwrap(), data)
}

fn request(epoll: &Epoll, timeout: i32) -> WaitRequest {
    match epoll.wait(timeout) {
        WaitStep::Wait(request) => request,
        _ => panic!("nothing to wait for"),
    }
}

#[test]
fn eventfd_flags() {
    let blocking = EventFd::new(EFD_SEMAPHORE, Ok(5)).unwrap();
    assert_eq!(blocking.read(), EventCall::Wait { handle: 5, timeout: u32::MAX });
    let nonblocking = EventFd::new(EFD_NONBLOCK | EFD_SEMAPHORE, Ok(6)).unwrap();
    assert_eq!(nonblocking.read(), EventCall::Wait { handle: 6, timeout: 0 });
    let negative = EventFd::new(-1, Ok(7)).unwrap();
    assert_eq!(negative.read(), EventCall::Wait { handle: 7, timeout: 0 });
    assert!(matches!(
        EventFd::new(0, Err(OsError { code: 8 })),
        Err(IoError::Os(OsError { code: 8 }))
    ));
}

#[test]
fn eventfd_creates_an_event_that_is_reset_by_hand() {
    assert_eq!(
        EventFd::create_call(),
        EventCall::Create { manual_reset: true, initially_signalled: false }
    );
}

#[test]
fn eventfd_write() {
    let fd = EventFd::new(0, Ok(5)).unwrap();
    assert_eq!(fd.write(1), EventCall::Signal { handle: 5 });
    assert_eq!(fd.write(0), fd.write(u64::MAX));
    assert_eq!(EventFd::write_done(Ok(())), Ok(()));
    assert_eq!(
        EventFd::write_done(Err(OsError { code: 2 })),
        Err(IoError::Os(OsError { code: 2 }))
    );
}

#[test]
fn eventfd_read() {
    let blocking = EventFd::new(0, Ok(5)).unwrap();
    let nonblocking = EventFd::new(EFD_NONBLOCK, Ok(6)).unwrap();
    assert_eq!(blocking.read_waited(0), Ok(EventCall::Reset { handle: 5 }));
    assert_eq!(nonblocking.read_waited(0), Ok(EventCall::Reset { handle: 6 }));
    assert_eq!(blocking.read_waited(258), Err(IoError::WaitFailed));
    assert_eq!(nonblocking.read_waited(258), Err(IoError::WouldBlock));
    assert_eq!(nonblocking.read_waited(u32::MAX), Err(IoError::WouldBlock));
    assert_eq!(EventFd::read_reset(Ok(())), Ok(1));
    assert_eq!(
        EventFd::read_reset(Err(OsError { code: 6 })),
        Err(IoError::Os(OsError { code: 6 }))
    );
}

#[test]
fn eventfd_clone() {
    let fd = EventFd::new(EFD_NONBLOCK, Ok(5)).unwrap();
    assert_eq!(fd.try_clone(), EventCall::Duplicate { handle: 5 });
    let clone = fd.try_clone_done(Ok(9)).unwrap();
    assert_eq!(clone.get_write_fd(), 9);
    assert_eq!(clone.as_raw_handle(), 9);
    assert_eq!(clone.read(), EventCall::Wait { handle: 9, timeout: 0 });
    assert!(matches!(
        fd.try_clone_done(Err(OsError { code: 1 })),
        Err(IoError::Os(OsError { code: 1 }))
    ));
}

/// Events that are reset by hand: what each handle stands for, and what is signalled.
struct System {
    event_of: Vec<(usize, u32)>,
    signalled: Vec<u32>,
}

impl System {
    fn event(&self, handle: usize) -> u32 {
        self.event_of.iter().find(|entry| entry.0 == handle).unwrap().1
    }

    fn perform(&mut self, call: EventCall) -> u32 {
        match call {
            EventCall::Create { manual_reset, initially_signalled } => {
                assert!(manual_reset && !initially_signalled);
                let next = self.event_of.len();
                self.event_of.push((next + 5, next as u32));
            }
            EventCall::Signal { handle } => self.signalled.push(self.event(handle)),
            EventCall::Wait { handle, .. } => {
                let signalled = self.signalled.contains(&self.event(handle));
                return if signalled { 0 } else { 258 };
            }
            EventCall::Reset { handle } => {
                let event = self.event(handle);
                self.signalled.retain(|other| *other != event);
            }
            EventCall::Duplicate { handle } => {
                let event = self.event(handle);
                self.event_of.push((handle + 100, event));
            }
        }
        0
    }

    fn read(&mut self, fd: &EventFd) -> Result<u64, IoError> {
        let result = self.perform(fd.read());
        let reset = fd.read_waited(result)?;
        self.perform(reset);
        EventFd::read_reset(Ok(()))
    }
}

#[test]
fn read_takes_what_was_written() {
    let mut system = System { event_of: vec![], signalled: vec![] };
    system.perform(EventFd::create_call());
    system.perform(EventFd::create_call());
    let fd = EventFd::new(EFD_NONBLOCK, Ok(5)).unwrap();
    let other = EventFd::new(EFD_NONBLOCK, Ok(6)).unwrap();
    assert_eq!(system.read(&fd), Err(IoError::WouldBlock));
    system.perform(fd.write(3));
    system.perform(fd.write(4));
    assert_eq!(system.read(&other), Err(IoError::WouldBlock));
    assert_eq!(system.read(&fd), Ok(1));
    assert_eq!(system.read(&fd), Err(IoError::WouldBlock));
}

#[test]
fn clone_shows_the_same_event() {
    let mut system = System { event_of: vec![(5, 1)], signalled: vec![] };
    let fd = EventFd::new(EFD_NONBLOCK, Ok(5)).unwrap();
    system.perform(fd.try_clone());
    let clone = fd.try_clone_done(Ok(105)).unwrap();
    system.perform(fd.write(1));
    assert_eq!(system.read(&clone), Ok(1));
    assert_eq!(system.read(&fd), Err(IoError::WouldBlock));
    system.perform(clone.write(1));
    system.event_of.retain(|entry| entry.0 != 105);
    assert_eq!(system.read(&fd), Ok(1));
}

#[test]
fn io_error_texts() {
    let cases = [
        (IoError::Os(OsError { code: 5 }), IoErrorKind::Other, "denied"),
        (IoError::WouldBlock, IoErrorKind::WouldBlock, "would block"),
        (IoError::WaitFailed, IoErrorKind::Other, "wait failed"),
        (
            IoError::WaitForMultipleObjectsFailed,
            IoErrorKind::Other,
            "WaitForMultipleObjects failed",
        ),
        (IoError::EventNotSetUp, IoErrorKind::NotFound, "EventFd not set up for irq line"),
    ];
    for (error, kind, text) in cases {
        assert_eq!(error.kind(), kind);
        assert_eq!(error.message("denied"), text);
    }
}

#[test]
fn event_sets() {
    assert_eq!(EventSet::from_bits(0).unwrap().bits(), 0);
    assert_eq!(EventSet::from_bits(31).unwrap().bits(), 31);
    assert_eq!(EventSet::from_bits(32), None);
    assert_eq!(EventSet::from_bits(u32::MAX), None);
    let bits = [
        EventSet::IN,
        EventSet::OUT,
        EventSet::HANG_UP,
        EventSet::READ_HANG_UP,
        EventSet::EDGE_TRIGGERED,
    ];
    assert_eq!(bits, [1, 2, 4, 8, 16]);
}

#[test]
fn epoll_event_accessors() {
    let set = EventSet::from_bits(EventSet::IN | EventSet::EDGE_TRIGGERED).unwrap();
    let event = EpollEvent::new(set, 0x1_2345_6789);
    assert_eq!(event.events(), 17);
    assert_eq!(event.event_set(), set);
    assert_eq!(event.data(), 0x1_2345_6789);
    assert_eq!(event.fd(), 0x1_2345_6789);
    let default = EpollEvent::default();
    assert_eq!((default.events(), default.data()), (0, 0));
}

#[test]
fn empty_queue_sleeps() {
    let epoll = Epoll::new().unwrap();
    assert!(matches!(epoll.wait(50), WaitStep::Idle { sleep_ms: 50 }));
    assert!(matches!(epoll.wait(0), WaitStep::Idle { sleep_ms: 0 }));
    assert!(matches!(epoll.wait(-1), WaitStep::Idle { sleep_ms: 0 }));
    assert_eq!(epoll.as_raw_handle(), 0);
}

#[test]
fn empty_queue_reports_nothing() {
    let epoll = Epoll::new().unwrap();
    let mut events = [event(4, 99)];
    for result in [0, 258, u32::MAX] {
        assert_eq!(epoll.wait(5).complete(result, 1, &mut events), Ok(0));
    }
    assert_eq!(events, [event(4, 99)]);
}

#[test]
fn wait_step_completes_its_request() {
    let mut epoll = Epoll::new().unwrap();
    epoll.ctl(ControlOperation::Add, 4, &event(EventSet::OUT, 40)).unwrap();
    let mut events = [EpollEvent::default()];
    assert_eq!(epoll.wait(5).complete(0, 0, &mut events), Ok(0));
    assert_eq!(epoll.wait(5).complete(258, 1, &mut events), Ok(0));
    assert_eq!(events, [EpollEvent::default()]);
    assert_eq!(epoll.wait(5).complete(0, 1, &mut events), Ok(1));
    assert_eq!(events, [event(EventSet::IN, 40)]);
    assert_eq!(
        epoll.wait(5).complete(1, 1, &mut events),
        Err(IoError::WaitForMultipleObjectsFailed)
    );
}

#[test]
fn registered_handles_are_waited_for() {
    let mut epoll = Epoll::new().unwrap();
    for fd in 1..=10usize {
        epoll.ctl(ControlOperation::Add, fd * 4, &event(EventSet::OUT, fd as u64)).unwrap();
    }
    let request = request(&epoll, 7);
    assert_eq!(request.timeout_ms, 7);
    assert_eq!(request.handles.len(), 10);
    for (handle, event) in request.handles.iter().zip(request.events.iter()) {
        assert_eq!(event.data(), *handle as u64 / 4);
        assert_eq!(event.events(), EventSet::OUT);
    }
    let mut handles = request.handles.clone();
    handles.sort();
    assert_eq!(handles, (1..=10usize).map(|fd| fd * 4).collect::<Vec<_>>());
}

#[test]
fn wait_timeouts() {
    let mut epoll = Epoll::new().unwrap();
    epoll.ctl(ControlOperation::Add, 4, &event(1, 1)).unwrap();
    assert_eq!(request(&epoll, -1).timeout_ms, 3000);
    assert_eq!(request(&epoll, i32::MIN).timeout_ms, 3000);
    assert_eq!(request(&epoll, 0).timeout_ms, 0);
    assert_eq!(request(&epoll, i32::MAX).timeout_ms, i32::MAX as u32);
}

#[test]
fn control_operations() {
    let mut epoll = Epoll::new().unwrap();
    // Changing what is not registered does nothing.
    assert_eq!(epoll.ctl(ControlOperation::Modify, 4, &event(1, 1)), Ok(()));
    assert_eq!(epoll.ctl(ControlOperation::Delete, 4, &event(1, 1)), Ok(()));
    assert!(matches!(epoll.wait(0), WaitStep::Idle { .. }));
    // The last registration counts.
    epoll.ctl(ControlOperation::Add, 4, &event(1, 1)).unwrap();
    epoll.ctl(ControlOperation::Add, 4, &event(1, 2)).unwrap();
    assert_eq!(request(&epoll, 0).events, vec![event(1, 2)]);
    epoll.ctl(ControlOperation::Modify, 4, &event(2, 3)).unwrap();
    assert_eq!(request(&epoll, 0).events, vec![event(2, 3)]);
    // Other handles stay.
    epoll.ctl(ControlOperation::Add, 8, &event(1, 8)).unwrap();
    epoll.ctl(ControlOperation::Delete, 4, &event(1, 1)).unwrap();
    let left = request(&epoll, 0);
    assert_eq!(left.handles, vec![8]);
    assert_eq!(left.events, vec![event(1, 8)]);
    epoll.ctl(ControlOperation::Delete, 8, &event(1, 1)).unwrap();
    assert!(matches!(epoll.wait(0), WaitStep::Idle { .. }));
}

#[test]
fn clone_is_independent() {
    let mut epoll = Epoll::new().unwrap();
    epoll.ctl(ControlOperation::Add, 4, &event(1, 1)).unwrap();
    let clone = epoll.clone();
    epoll.ctl(ControlOperation::Delete, 4, &event(1, 1)).unwrap();
    assert!(matches!(epoll.wait(0), WaitStep::Idle { .. }));
    assert_eq!(request(&clone, 0).handles, vec![4]);
}

fn two() -> WaitRequest {
    WaitRequest {
        handles: vec![4, 8],
        events: vec![event(EventSet::OUT, 40), event(EventSet::OUT, 80)],
        timeout_ms: 0,
    }
}

#[test]
fn signalled_handle_is_reported_as_readable() {
    let mut events = [EpollEvent::default(); 2];
    assert_eq!(two().complete(1, 10, &mut events), Ok(1));
    assert_eq!(events, [event(EventSet::IN, 80), EpollEvent::default()]);
    assert_eq!(two().complete(0, 1, &mut events), Ok(1));
    assert_eq!(events[0], event(EventSet::IN, 40));
}

#[test]
fn at_most_max_events_are_reported() {
    let mut events = [event(4, 99)];
    assert_eq!(two().complete(1, 0, &mut events), Ok(0));
    assert_eq!(events, [event(4, 99)]);
    // Without room the event is counted, but reported nowhere.
    assert_eq!(two().complete(1, 5, &mut []), Ok(1));
}

#[test]
fn timeouts_and_failures_report_nothing() {
    let mut events = [event(4, 99)];
    assert_eq!(two().complete(258, 1, &mut events), Ok(0));
    assert_eq!(two().complete(2, 1, &mut events), Err(IoError::WaitForMultipleObjectsFailed));
    assert_eq!(
        two().complete(u32::MAX, 1, &mut events),
        Err(IoError::WaitForMultipleObjectsFailed)
    );
    assert_eq!(events, [event(4, 99)]);
}

#[test]
fn interrupts_signal_their_event() {
    let mut chip = WhpIoapic::new();
    assert_eq!((chip.get_mmio_addr(), chip.get_mmio_size()), (0, 0));
    let fd = EventFd::new(0, Ok(5)).unwrap();
    assert_eq!(chip.set_irq(Some(3), Some(&fd)), Ok(EventCall::Signal { handle: 5 }));
    assert_eq!(chip.set_irq(None, Some(&fd)), Ok(EventCall::Signal { handle: 5 }));
    assert_eq!(
        chip.set_irq(Some(3), None),
        Err(DeviceError::FailedSignalingUsedQueue(IoError::EventNotSetUp))
    );
    assert_eq!(WhpIoapic::set_irq_done(Ok(())), Ok(()));
    assert_eq!(
        WhpIoapic::set_irq_done(Err(OsError { code: 7 })),
        Err(DeviceError::FailedSignalingUsedQueue(IoError::Os(OsError { code: 7 })))
    );
    let mut data = [1, 2, 3];
    chip.read(0, 0, &mut data);
    chip.write(0, 0, &data);
    assert_eq!(data, [1, 2, 3]);
}

#[test]
fn errno_conversions() {
    assert_eq!(errno::Error::new(22).errno(), 22);
    let io = std::io::Error::from(errno::Error::new(22));
    assert_eq!(io.raw_os_error(), Some(22));
    assert_eq!(errno::Error::from(io), errno::Error::new(22));
    let other = std::io::Error::new(std::io::ErrorKind::Other, "no number");
    assert_eq!(errno::Error::from(other).errno(), 0);
}

#[test]
fn errno_of_the_last_failure() {
    assert!(errno::errno_result::<u8>().is_err());
    // Mapping a region of no bytes is refused by the system as an invalid argument.
    assert!(GuestMemoryMmap::<()>::from_ranges(&[(GuestAddress(0), 0)]).is_err());
    assert_eq!(errno::Error::last().errno(), 22);
    assert!(GuestMemoryMmap::<()>::from_ranges(&[(GuestAddress(0), 0)]).is_err());
    assert_eq!(errno::errno_result::<u8>(), Err(errno::Error::new(22)));
}
