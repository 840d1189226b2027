use vm_memory::{GuestAddress, GuestMemoryError};
use whp_vmm::emulation::{
    can_emulate_exit, BusKind, ExitContext, ExitReason, IoPortAccess, MemoryAccess, VcpuEmulation,
    VpContext,
};
use whp_vmm::errno;
use whp_vmm::eventfd::{EventCall, EventFd};
use whp_vmm::os::OsError;
use whp_vmm::registers::{RegisterCall, RegisterName, RegisterValue, RegisterWrite};
use whp_vmm::vstate::{
    CreateProcessor, Error, ProcessorId, RunAction, Vcpu, VcpuEvent, VcpuHandle, VcpuResponse,
};

fn vcpu(id: u8) -> Vcpu<&'static str> {
    let evt = EventFd::new(0, Ok(0x77)).unwrap();
    Vcpu::new_x86_64(id, 0x1234, "pio", evt, Ok(())).unwrap()
}

fn exit(reason: ExitReason, bitfield: u8, rip: u64) -> Result<ExitContext, OsError> {
    Ok(ExitContext { reason, vp: VpContext { bitfield, rip } })
}

fn rip(vp_index: u32, value: u64) -> Option<RegisterCall> {
    let write = RegisterWrite { name: RegisterName::Rip, value: RegisterValue::Reg64(value) };
    Some(RegisterCall { partition: 0x1234, vp_index, writes: vec![write] })
}

fn memory_access(access_info: u32, count: u8) -> ExitReason {
    let mut bytes = [0u8; 16];
    for i in 0..16 {
        bytes[i] = i as u8 + 1;
    }
    ExitReason::MemoryAccess(MemoryAccess {
        gpa: 0xd000_0000,
        access_info,
        instruction_byte_count: count,
        instruction_bytes: bytes,
    })
}

fn io_access(access_info: u32) -> ExitReason {
    ExitReason::IoPortAccess(IoPortAccess {
        port: 0x3f8,
        access_info,
        rax: 0x1122_3344_5566_7788,
    })
}

#[test]
fn new_vcpu() {
    let vcpu = vcpu(3);
    assert_eq!(vcpu.cpu_index(), 3);
    assert_eq!(vcpu.partition(), 0x1234);
    assert_eq!(vcpu.mmio_bus(), None);
    assert_eq!(vcpu.pio_bus(), Some(&"pio"));
    let evt = EventFd::new(0, Ok(1)).unwrap();
    assert!(matches!(
        Vcpu::new_x86_64(0, 1, "pio", evt, Err(OsError { code: 4 })),
        Err(Error::WhpError(OsError { code: 4 }))
    ));
}

#[test]
fn processor_is_created_and_run_by_its_number() {
    let processor = ProcessorId { partition: 0x1234, vp_index: 200 };
    assert_eq!(
        Vcpu::<u8>::create_call(200, 0x1234),
        CreateProcessor { processor, flags: 0 }
    );
    assert_eq!(vcpu(200).processor(), processor);
}

#[test]
fn mmio_bus_can_be_set() {
    let mut vcpu = vcpu(0);
    vcpu.set_mmio_bus("mmio");
    assert_eq!(vcpu.mmio_bus(), Some(&"mmio"));
    assert_eq!(vcpu.pio_bus(), Some(&"pio"));
    assert_eq!(vcpu.cpu_index(), 0);
}

#[test]
fn memory_write_goes_to_the_mmio_bus() {
    let mut vcpu = vcpu(2);
    vcpu.set_mmio_bus("mmio");
    let emulation = vcpu.run_emulation(exit(memory_access(0x11, 3), 0xf3, 0x1000)).unwrap();
    let access = emulation.access.as_ref().unwrap();
    assert_eq!(access.bus, BusKind::Mmio);
    assert_eq!(access.vcpuid, 2);
    assert_eq!(access.addr, 0xd000_0000);
    assert!(access.is_write);
    assert_eq!(access.data, vec![1, 2, 3]);
    assert_eq!(emulation.rip, rip(2, 0x1003));
    assert_eq!(emulation.outcome, VcpuEmulation::Handled);
}

#[test]
fn memory_read_goes_to_the_mmio_bus() {
    let mut vcpu = vcpu(0);
    vcpu.set_mmio_bus("mmio");
    let emulation = vcpu.run_emulation(exit(memory_access(0x10, 16), 0x7, 0)).unwrap();
    let access = emulation.access.as_ref().unwrap();
    assert!(!access.is_write);
    assert_eq!(access.data.len(), 16);
    assert_eq!(access.data[15], 16);
    assert_eq!(emulation.rip, rip(0, 7));
}

#[test]
fn memory_access_without_a_bus() {
    let emulation = vcpu(0).run_emulation(exit(memory_access(1, 4), 0x4, 0x10)).unwrap();
    assert!(emulation.access.is_none());
    assert_eq!(emulation.rip, rip(0, 0x14));
    assert_eq!(emulation.outcome, VcpuEmulation::Handled);
}

#[test]
fn port_write_takes_the_low_bytes() {
    let emulation = vcpu(5).run_emulation(exit(io_access(0x0002_0001), 0x1, 0x100)).unwrap();
    let access = emulation.access.as_ref().unwrap();
    assert_eq!(access.bus, BusKind::Pio);
    assert_eq!(access.vcpuid, 5);
    assert_eq!(access.addr, 0x3f8);
    assert!(access.is_write);
    assert_eq!(access.data, vec![0x88, 0x77]);
    assert_eq!(emulation.rip, rip(5, 0x101));
    let emulation = vcpu(5).run_emulation(exit(io_access(0xffff_0001), 0x1, 0x100)).unwrap();
    assert_eq!(
        emulation.access.unwrap().data,
        vec![0x88, 0x77, 0x66, 0x55, 0x44, 0x33, 0x22]
    );
}

#[test]
fn port_read_starts_from_zeroes() {
    let emulation = vcpu(0).run_emulation(exit(io_access(0x0004_0000), 0x2, 0x100)).unwrap();
    let access = emulation.access.as_ref().unwrap();
    assert!(!access.is_write);
    assert_eq!(access.data, vec![0, 0, 0, 0]);
    // The size can be nothing at all.
    let emulation = vcpu(0).run_emulation(exit(io_access(0x0), 0x2, 0x100)).unwrap();
    assert!(emulation.access.unwrap().data.is_empty());
}

#[test]
fn instruction_without_a_length_is_not_skipped() {
    let emulation = vcpu(0).run_emulation(exit(io_access(0x0001_0001), 0xf0, 0x100)).unwrap();
    assert_eq!(emulation.rip, None);
}

#[test]
fn rip_can_reach_the_last_address() {
    let vp = VpContext { bitfield: 0xf, rip: u64::MAX - 15 };
    assert_eq!(vcpu(0).advance_rip(&vp), rip(0, u64::MAX));
    let vp = VpContext { bitfield: 0x10, rip: u64::MAX };
    assert_eq!(vcpu(0).advance_rip(&vp), None);
}

#[test]
fn rip_moves_by_the_length_of_the_instruction() {
    for len in 1..=15u8 {
        for high in [0x00, 0xa0] {
            let vp = VpContext { bitfield: high | len, rip: 0x1000 };
            assert_eq!(vcpu(0).advance_rip(&vp), rip(0, 0x1000 + len as u64));
        }
    }
}

#[test]
fn exits_that_can_be_emulated() {
    let can = |reason, bitfield, rip| {
        can_emulate_exit(&ExitContext { reason, vp: VpContext { bitfield, rip } })
    };
    assert!(can(memory_access(0, 16), 0x1f, u64::MAX - 15));
    assert!(!can(memory_access(0, 17), 0x1, 0));
    assert!(!can(memory_access(0, 16), 0x1f, u64::MAX - 14));
    assert!(can(io_access(0), 0x10, u64::MAX));
    assert!(!can(io_access(0), 0x11, u64::MAX));
    assert!(can(ExitReason::Halt, 0xf, u64::MAX));
    assert!(can(ExitReason::Other(4), 0xf, u64::MAX));
}

#[test]
fn other_exits() {
    let halt = vcpu(0).run_emulation(exit(ExitReason::Halt, 0x3, 0x10)).unwrap();
    assert_eq!(halt.outcome, VcpuEmulation::Stopped);
    assert!(halt.access.is_none() && halt.rip.is_none());
    for reason in [ExitReason::Canceled, ExitReason::Unspecified] {
        let emulation = vcpu(0).run_emulation(exit(reason, 0x3, 0x10)).unwrap();
        assert_eq!(emulation.outcome, VcpuEmulation::Handled);
        assert!(emulation.access.is_none() && emulation.rip.is_none());
    }
    assert!(matches!(
        vcpu(0).run_emulation(exit(ExitReason::Other(4), 0, 0)),
        Err(Error::VcpuUnhandledKvmExit)
    ));
    assert!(matches!(
        vcpu(0).run_emulation(Err(OsError { code: -1 })),
        Err(Error::VcpuRun)
    ));
}

#[test]
fn emulation_fails_if_rip_cannot_be_set() {
    let emulation = vcpu(0).run_emulation(exit(io_access(0), 1, 0)).unwrap();
    assert!(matches!(emulation.finish(Ok(())), Ok(VcpuEmulation::Handled)));
    assert!(matches!(
        emulation.finish(Err(OsError { code: 6 })),
        Err(Error::WhpError(OsError { code: 6 }))
    ));
    let halt = vcpu(0).run_emulation(exit(ExitReason::Halt, 0, 0)).unwrap();
    assert!(matches!(halt.finish(Ok(())), Ok(VcpuEmulation::Stopped)));
}

#[test]
fn run_decides_by_the_outcome() {
    assert_eq!(Vcpu::<u8>::run(&Ok(VcpuEmulation::Handled)), RunAction::Continue);
    assert_eq!(Vcpu::<u8>::run(&Ok(VcpuEmulation::Stopped)), RunAction::Exit(0));
    assert_eq!(Vcpu::<u8>::run(&Err(Error::VcpuRun)), RunAction::Exit(1));
}

#[test]
fn runs_until_the_first_unhandled_exit() {
    let exits = [
        exit(ExitReason::Canceled, 0, 0),
        exit(io_access(0x0001_0001), 1, 0),
        exit(ExitReason::Halt, 0, 0),
        exit(ExitReason::Other(4), 0, 0),
    ];
    let vcpu = vcpu(0);
    let mut runs = 0;
    let mut code = None;
    for exit in exits {
        runs += 1;
        let outcome = vcpu.run_emulation(exit).and_then(|e| e.finish(Ok(())));
        if let RunAction::Exit(c) = Vcpu::<u8>::run(&outcome) {
            code = Some(c);
            break;
        }
    }
    assert_eq!((runs, code), (3, Some(0)));
}

#[test]
fn exit_responds_and_signals() {
    let (mut vcpu, handle) = vcpu(0).start_threaded();
    assert_eq!(vcpu.exit(1), Ok(EventCall::Signal { handle: 0x77 }));
    assert_eq!(handle.response_receiver().try_recv(), Ok(VcpuResponse::Exited(1)));
    assert!(handle.response_receiver().try_recv().is_err());
}

#[test]
fn exit_goes_on_by_the_outcome_of_sending() {
    let vcpu = vcpu(0);
    assert_eq!(vcpu.exit_sent(Ok(())), Ok(EventCall::Signal { handle: 0x77 }));
    assert_eq!(
        vcpu.exit_sent(Err(VcpuResponse::Exited(3))),
        Err(VcpuResponse::Exited(3))
    );
}

#[test]
fn channels_of_a_processor_have_no_limit() {
    let (vcpu, handle) = vcpu(0).start_threaded();
    assert!(vcpu.is_unbounded());
    assert!(handle.is_unbounded());
    let (event_sender, _event_receiver) = crossbeam_channel::bounded(5);
    let (_response_sender, response_receiver) = crossbeam_channel::unbounded();
    assert!(!VcpuHandle::new(event_sender, response_receiver).is_unbounded());
}

#[test]
fn channels_of_two_processors_are_apart() {
    let (mut first, first_handle) = vcpu(0).start_threaded();
    let (_second, second_handle) = vcpu(1).start_threaded();
    first.exit(9).unwrap();
    assert!(second_handle.response_receiver().try_recv().is_err());
    assert_eq!(first_handle.response_receiver().try_recv(), Ok(VcpuResponse::Exited(9)));
}

#[test]
fn exit_without_a_listener() {
    let (mut vcpu, handle) = vcpu(0).start_threaded();
    drop(handle);
    assert_eq!(vcpu.exit(1), Err(VcpuResponse::Exited(1)));
}

#[test]
fn started_processor_is_the_same() {
    let mut before = vcpu(7);
    before.set_mmio_bus("mmio");
    let (vcpu, _handle) = before.start_threaded();
    assert_eq!(vcpu.cpu_index(), 7);
    assert_eq!(vcpu.partition(), 0x1234);
    assert_eq!(vcpu.mmio_bus(), Some(&"mmio"));
    assert_eq!(vcpu.pio_bus(), Some(&"pio"));
}

#[test]
fn events_reach_the_processor() {
    let (vcpu, mut handle) = vcpu(0).start_threaded();
    assert_eq!(handle.send_event(VcpuEvent::Pause), Ok(()));
    assert_eq!(handle.send_event(VcpuEvent::Resume), Ok(()));
    drop(vcpu);
    assert_eq!(handle.send_event(VcpuEvent::Pause), Err(VcpuEvent::Pause));
}

#[test]
fn handle_of_given_channels() {
    let (event_sender, event_receiver) = crossbeam_channel::unbounded();
    let (response_sender, response_receiver) = crossbeam_channel::unbounded();
    let mut handle = VcpuHandle::new(event_sender, response_receiver);
    handle.send_event(VcpuEvent::Resume).unwrap();
    assert_eq!(event_receiver.try_recv(), Ok(VcpuEvent::Resume));
    response_sender.send(VcpuResponse::Paused).unwrap();
    assert_eq!(handle.response_receiver().try_recv(), Ok(VcpuResponse::Paused));
}

#[test]
fn thread_slot_holds_one_processor() {
    let mut slot = None;
    assert!(matches!(
        Vcpu::<u8>::reset_thread_local_data(&mut slot, 1),
        Err(Error::VcpuTlsNotPresent)
    ));
    assert!(Vcpu::<u8>::init_thread_local_data(&mut slot, 1).is_ok());
    assert_eq!(slot, Some(1));
    assert!(matches!(
        Vcpu::<u8>::init_thread_local_data(&mut slot, 2),
        Err(Error::VcpuTlsInit)
    ));
    assert!(matches!(
        Vcpu::<u8>::reset_thread_local_data(&mut slot, 2),
        Err(Error::VcpuTlsNotPresent)
    ));
    assert_eq!(slot, Some(1));
    assert!(Vcpu::<u8>::reset_thread_local_data(&mut slot, 1).is_ok());
    assert_eq!(slot, None);
}

#[test]
fn thread_names() {
    assert_eq!(vcpu(0).thread_name(), "fc_vcpu 0");
    assert_eq!(vcpu(42).thread_name(), "fc_vcpu 42");
    assert_eq!(vcpu(105).thread_name(), "fc_vcpu 105");
    assert_eq!(vcpu(255).thread_name(), "fc_vcpu 255");
}

#[test]
fn error_messages() {
    let os = OsError { code: 1 };
    let memory = GuestMemoryError::InvalidGuestAddress(GuestAddress(0));
    let io = std::io::Error::from_raw_os_error(11);
    let cases: Vec<(Error, &str)> = vec![
        (Error::GuestMemoryMmap(memory), "Guest memory error: x"),
        (Error::VcpuCountNotInitialized, "vCPU count is not initialized"),
        (Error::VmSetup(os), "Cannot configure the microvm: x"),
        (Error::VcpuRun, "Cannot run the VCPUs"),
        (Error::NotEnoughMemorySlots, "Not enough memory slots"),
        (Error::SetUserMemoryRegion(os), "Cannot set the memory regions: x"),
        (Error::SignalVcpu(errno::Error::new(2)), "Failed to signal Vcpu: x"),
        (Error::VcpuSpawn(io), "Cannot spawn a new vCPU thread: x"),
        (Error::VcpuTlsInit, "Cannot clean init vcpu TLS"),
        (Error::VcpuTlsNotPresent, "Vcpu not present in TLS"),
        (Error::VcpuUnhandledKvmExit, "Unexpected exit reason"),
        (Error::WhpError(os), "WHP error: x"),
        (Error::REGSConfiguration(os), "Error configuring registers: x"),
    ];
    for (error, text) in cases {
        assert_eq!(error.message("x"), text);
    }
}
