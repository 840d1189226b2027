//! Virtual machines and virtual processors.

use crate::boot::{gdt_idt_writes, page_table_writes, setup_gdt_idt, setup_page_tables};
use crate::channel::{
    capacity_for_events, capacity_for_responses, event_capacity, event_channel, event_ends,
    response_capacity, response_channel, response_ends, send_event, send_response, sent_events,
    sent_responses,
};
use crate::emulation::VcpuEmulation;
use crate::errno;
use crate::eventfd::{EventCall, EventFd};
use crate::guest_mem::{
    all_fit, covered, get_host_address, guest_bytes, guest_regions, host_addresses,
    lemma_store_all_concat, nonempty_regions, regions, store_all,
};
use crate::os::OsError;
use crate::paging::boot_writes;
use crate::registers::{
    boot_fpu, boot_msrs, boot_regs, boot_sregs, RegisterCall, RegisterCallView, RegisterName,
    RegisterValue, RegisterWrite,
};
use crossbeam_channel::{Receiver, Sender};
use vm_memory::{GuestMemoryError, GuestMemoryMmap};
use vstd::prelude::*;
use vstd::string::StringExecFns;

verus! {

/// Success exit code.
pub const FC_EXIT_CODE_OK: u8 = 0;

/// Generic error exit code.
pub const FC_EXIT_CODE_GENERIC_ERROR: u8 = 1;

/// Access rights of a range of guest memory: read, write and execute.
pub const MAP_GPA_READ: i32 = 1;

pub const MAP_GPA_WRITE: i32 = 2;

pub const MAP_GPA_EXECUTE: i32 = 4;

/// Errors associated with hypervisor operations.
#[derive(Debug)]
pub enum Error {
    /// Invalid guest memory configuration.
    GuestMemoryMmap(GuestMemoryError),
    /// The number of configured slots is bigger than the maximum reported.
    NotEnoughMemorySlots,
    /// Cannot set the memory regions.
    SetUserMemoryRegion(OsError),
    /// Failed to signal Vcpu.
    SignalVcpu(errno::Error),
    /// vCPU count is not initialized.
    VcpuCountNotInitialized,
    /// Cannot run the VCPUs.
    VcpuRun,
    /// Cannot spawn a new vCPU thread.
    VcpuSpawn(std::io::Error),
    /// Cannot cleanly initialize vcpu TLS.
    VcpuTlsInit,
    /// Vcpu not present in TLS.
    VcpuTlsNotPresent,
    /// Unexpected exit reason.
    VcpuUnhandledKvmExit,
    /// Cannot configure the microvm.
    VmSetup(OsError),
    /// Hypervisor API error.
    WhpError(OsError),
    /// Error configuring registers.
    REGSConfiguration(OsError),
}

pub type Result<T> = std::result::Result<T, Error>;

impl Error {
    /// The text of an error, where `detail` is the text of the error inside it, if there is one.
    pub open spec fn spec_message(self, detail: Seq<char>) -> Seq<char> {
        match self {
            Error::GuestMemoryMmap(_) => "Guest memory error: "@ + detail,
            Error::VcpuCountNotInitialized => "vCPU count is not initialized"@,
            Error::VmSetup(_) => "Cannot configure the microvm: "@ + detail,
            Error::VcpuRun => "Cannot run the VCPUs"@,
            Error::NotEnoughMemorySlots => "Not enough memory slots"@,
            Error::SetUserMemoryRegion(_) => "Cannot set the memory regions: "@ + detail,
            Error::SignalVcpu(_) => "Failed to signal Vcpu: "@ + detail,
            Error::VcpuSpawn(_) => "Cannot spawn a new vCPU thread: "@ + detail,
            Error::VcpuTlsInit => "Cannot clean init vcpu TLS"@,
            Error::VcpuTlsNotPresent => "Vcpu not present in TLS"@,
            Error::VcpuUnhandledKvmExit => "Unexpected exit reason"@,
            Error::WhpError(_) => "WHP error: "@ + detail,
            Error::REGSConfiguration(_) => "Error configuring registers: "@ + detail,
        }
    }

    /// The text of an error, where `detail` is the text of the error inside it, if there is one.
    pub fn message(&self, detail: &str) -> (text: String)
        ensures
            text@ == self.spec_message(detail@),
            match *self {
                Error::GuestMemoryMmap(_) => text@ == "Guest memory error: "@ + detail@,
                Error::VmSetup(_) => text@ == "Cannot configure the microvm: "@ + detail@,
                Error::SetUserMemoryRegion(_) => text@ == "Cannot set the memory regions: "@
                    + detail@,
                Error::SignalVcpu(_) => text@ == "Failed to signal Vcpu: "@ + detail@,
                Error::VcpuSpawn(_) => text@ == "Cannot spawn a new vCPU thread: "@ + detail@,
                Error::WhpError(_) => text@ == "WHP error: "@ + detail@,
                Error::REGSConfiguration(_) => text@ == "Error configuring registers: "@ + detail@,
                _ => true,
            },
    {
        match self {
            Error::GuestMemoryMmap(_) => "Guest memory error: ".to_owned().concat(detail),
            Error::VcpuCountNotInitialized => "vCPU count is not initialized".to_owned(),
            Error::VmSetup(_) => "Cannot configure the microvm: ".to_owned().concat(detail),
            Error::VcpuRun => "Cannot run the VCPUs".to_owned(),
            Error::NotEnoughMemorySlots => "Not enough memory slots".to_owned(),
            Error::SetUserMemoryRegion(_) => "Cannot set the memory regions: ".to_owned().concat(
                detail,
            ),
            Error::SignalVcpu(_) => "Failed to signal Vcpu: ".to_owned().concat(detail),
            Error::VcpuSpawn(_) => "Cannot spawn a new vCPU thread: ".to_owned().concat(detail),
            Error::VcpuTlsInit => "Cannot clean init vcpu TLS".to_owned(),
            Error::VcpuTlsNotPresent => "Vcpu not present in TLS".to_owned(),
            Error::VcpuUnhandledKvmExit => "Unexpected exit reason".to_owned(),
            Error::WhpError(_) => "WHP error: ".to_owned().concat(detail),
            Error::REGSConfiguration(_) => "Error configuring registers: ".to_owned().concat(
                detail,
            ),
        }
    }
}

/// A partition of the hypervisor that is set up to hold a virtual machine.
#[derive(Debug)]
pub struct Vm {
    partition: isize,
}

/// The call that is to be made next to set up a partition.
#[derive(Clone, Copy, Debug, PartialEq, Eq, Structural)]
pub enum VmSetup {
    CreatePartition,
    SetProcessorCount { partition: isize, count: u32 },
    SetupPartition { partition: isize },
}

/// How far the setup of a partition has come.
#[derive(Debug)]
pub enum VmProgress {
    Call(VmSetup),
    Ready(Vm),
}

impl VmSetup {
    /// What follows on a call: the first failure ends the setup.
    pub open spec fn follow_up(self, outcome: std::result::Result<isize, OsError>) -> Result<
        VmProgress,
    > {
        match (outcome, self) {
            (Err(e), _) => Err(Error::VmSetup(e)),
            (Ok(partition), VmSetup::CreatePartition) => Ok(
                VmProgress::Call(VmSetup::SetProcessorCount { partition, count: 1 }),
            ),
            (Ok(_), VmSetup::SetProcessorCount { partition, .. }) => Ok(
                VmProgress::Call(VmSetup::SetupPartition { partition }),
            ),
            (Ok(_), VmSetup::SetupPartition { partition }) => Ok(
                VmProgress::Ready(Vm::spec_of(partition)),
            ),
        }
    }

    /// Goes on with the setup after a call. Its outcome holds the handle of the partition if the
    /// call created one; else the value does not matter.
    pub fn advance(self, outcome: std::result::Result<isize, OsError>) -> (r: Result<VmProgress>)
        ensures
            r == self.follow_up(outcome),
            outcome matches Err(e) ==> r == Err::<VmProgress, Error>(Error::VmSetup(e)),
            outcome matches Ok(handle) ==> match self {
                VmSetup::CreatePartition => r == Ok::<VmProgress, Error>(
                    VmProgress::Call(VmSetup::SetProcessorCount { partition: handle, count: 1 }),
                ),
                VmSetup::SetProcessorCount { partition, .. } => r == Ok::<VmProgress, Error>(
                    VmProgress::Call(VmSetup::SetupPartition { partition }),
                ),
                VmSetup::SetupPartition { partition } => r matches Ok(VmProgress::Ready(vm))
                    && vm.handle() == partition,
            },
    {
        match outcome {
            Err(e) => Err(Error::VmSetup(e)),
            Ok(handle) => match self {
                // Set processor count - will be updated before setup
                VmSetup::CreatePartition => Ok(
                    VmProgress::Call(VmSetup::SetProcessorCount { partition: handle, count: 1 }),
                ),
                VmSetup::SetProcessorCount { partition, .. } => Ok(
                    VmProgress::Call(VmSetup::SetupPartition { partition }),
                ),
                VmSetup::SetupPartition { partition } => Ok(VmProgress::Ready(Vm { partition })),
            },
        }
    }
}

/// A range of host memory that is to be mapped into a partition.
#[derive(Clone, Copy, Debug, PartialEq, Eq, Structural)]
pub struct GpaRange {
    pub partition: isize,
    pub host_addr: usize,
    pub guest_addr: u64,
    pub size: u64,
    pub flags: i32,
}

/// Some range holds the guest address `addr`.
pub open spec fn in_ranges(ranges: Seq<GpaRange>, addr: int) -> bool {
    exists|i: int|
        0 <= i < ranges.len() && #[trigger] ranges[i].guest_addr <= addr < ranges[i].guest_addr
            + ranges[i].size
}

impl Vm {
    /// The handle of the partition.
    pub closed spec fn handle(self) -> isize {
        self.partition
    }

    /// The virtual machine in a partition.
    pub closed spec fn spec_of(partition: isize) -> Vm {
        Vm { partition }
    }

    /// Starts the setup of a new partition.
    pub fn new(_nested_enabled: bool) -> (first: VmSetup)
        ensures
            first == VmSetup::CreatePartition,
    {
        VmSetup::CreatePartition
    }

    /// Returns the partition handle.
    pub fn partition_handle(&self) -> (handle: isize)
        ensures
            handle == self.handle(),
    {
        self.partition
    }

    /// The mapping of `size` bytes at `host_addr` to `guest_addr` of the partition, with full
    /// access.
    pub fn gpa_range(&self, host_addr: usize, guest_addr: u64, size: u64) -> (range: GpaRange)
        ensures
            range == (GpaRange { partition: self.handle(), host_addr, guest_addr, size, flags: 7 }),
    {
        let flags: i32 = MAP_GPA_READ | MAP_GPA_WRITE | MAP_GPA_EXECUTE;
        assert(1i32 | 2i32 | 4i32 == 7) by (bit_vector);
        GpaRange { partition: self.partition, host_addr, guest_addr, size, flags }
    }

    /// The ranges that make the regions of guest memory known to the partition, in order, each
    /// from where its region lies in this process, with full access. The outcome of mapping one
    /// goes to `range_mapped`.
    pub fn memory_init(&self, guest_mem: &GuestMemoryMmap<()>) -> (ranges: Vec<GpaRange>)
        requires
            nonempty_regions(guest_regions(*guest_mem)),
        ensures
            ranges.len() == guest_regions(*guest_mem).len(),
            forall|i: int|
                0 <= i < ranges.len() ==> {
                    let range = #[trigger] ranges[i];
                    &&& range.partition == self.handle()
                    &&& range.host_addr == host_addresses(*guest_mem)[range.guest_addr as int]
                    &&& range.guest_addr == guest_regions(*guest_mem)[i].0
                    &&& range.size == guest_regions(*guest_mem)[i].1
                    &&& range.flags == 7
                },
            forall|a: int| #[trigger]
                guest_bytes(*guest_mem).contains_key(a) <==> in_ranges(ranges@, a),
    {
        let regions = regions(guest_mem);
        let mut ranges: Vec<GpaRange> = Vec::new();
        let mut i: usize = 0;
        while i < regions.len()
            invariant
                i <= regions.len(),
                regions@ == guest_regions(*guest_mem),
                nonempty_regions(guest_regions(*guest_mem)),
                forall|a: int|
                    guest_bytes(*guest_mem).contains_key(a) <==> #[trigger] covered(regions@, a),
                ranges.len() == i,
                forall|j: int|
                    0 <= j < i ==> {
                        let range = #[trigger] ranges[j];
                        &&& range.partition == self.handle()
                        &&& range.host_addr == host_addresses(*guest_mem)[range.guest_addr as int]
                        &&& range.guest_addr == regions@[j].0
                        &&& range.size == regions@[j].1
                        &&& range.flags == 7
                    },
            decreases regions.len() - i,
        {
            let (start, len) = regions[i];
            assert(regions@[i as int].0 <= start < regions@[i as int].0 + regions@[i as int].1);
            assert(covered(regions@, start as int));
            let host_addr: usize = get_host_address(guest_mem, start).unwrap();
            ranges.push(self.gpa_range(host_addr, start, len));
            i += 1;
        }
        assert forall|a: int| #[trigger] guest_bytes(*guest_mem).contains_key(a) <==> in_ranges(
            ranges@,
            a,
        ) by {
            if covered(regions@, a) {
                let k = choose|k: int|
                    0 <= k < regions@.len() && #[trigger] regions@[k].0 <= a < regions@[k].0
                        + regions@[k].1;
                assert(ranges@[k].guest_addr <= a < ranges@[k].guest_addr + ranges@[k].size);
            }
            if in_ranges(ranges@, a) {
                let k = choose|k: int|
                    0 <= k < ranges@.len() && #[trigger] ranges@[k].guest_addr <= a
                        < ranges@[k].guest_addr + ranges@[k].size;
                assert(ranges[k] == ranges@[k]);
                assert(regions@[k].0 <= a < regions@[k].0 + regions@[k].1);
            }
        }
        ranges
    }

    /// How many ranges are mapped after one more was to be: a failure ends the mapping.
    pub open spec fn spec_range_mapped(
        mapped: nat,
        outcome: std::result::Result<(), OsError>,
    ) -> Result<nat> {
        match outcome {
            Ok(()) => Ok(mapped + 1),
            Err(e) => Err(Error::SetUserMemoryRegion(e)),
        }
    }

    /// Goes on after `mapped` of the ranges were mapped and the next one came back with `outcome`:
    /// the number of ranges that are mapped now, or the failure that ends the mapping.
    pub fn range_mapped(mapped: usize, outcome: std::result::Result<(), OsError>) -> (r: Result<
        usize,
    >)
        requires
            mapped < usize::MAX,
        ensures
            match r {
                Ok(now) => Self::spec_range_mapped(mapped as nat, outcome) == Ok::<nat, Error>(
                    now as nat,
                ),
                Err(e) => Self::spec_range_mapped(mapped as nat, outcome) == Err::<nat, Error>(e),
            },
            outcome is Ok ==> (r matches Ok(now) && now == mapped + 1),
            outcome matches Err(e) ==> r == Err::<usize, Error>(Error::SetUserMemoryRegion(e)),
    {
        match outcome {
            Ok(()) => Ok(mapped + 1),
            Err(e) => Err(Error::SetUserMemoryRegion(e)),
        }
    }

    /// The mappings that are made for a list of ranges, and what comes of the list, where range
    /// number `i` comes back with `outcomes[i]`, and the first `mapped` ranges are mapped.
    pub open spec fn map_ranges(
        ranges: Seq<GpaRange>,
        outcomes: Seq<std::result::Result<(), OsError>>,
        mapped: nat,
    ) -> (Seq<GpaRange>, Result<()>)
        decreases ranges.len() - mapped,
    {
        if mapped >= ranges.len() {
            (ranges, Ok(()))
        } else {
            match Self::spec_range_mapped(mapped, outcomes[mapped as int]) {
                Ok(now) => Self::map_ranges(ranges, outcomes, now),
                Err(e) => (ranges.take(mapped as int + 1), Err(e)),
            }
        }
    }
}

/// The first range that cannot be mapped ends the mapping with its error: those before it are
/// mapped, and none after it is tried. If there is no such range, all are mapped.
pub proof fn lemma_memory_init_ends_at_failure(
    ranges: Seq<GpaRange>,
    outcomes: Seq<std::result::Result<(), OsError>>,
    k: nat,
)
    requires
        k <= ranges.len(),
        forall|i: int| 0 <= i < k ==> #[trigger] outcomes[i] is Ok,
        k < ranges.len() ==> outcomes[k as int] is Err,
    ensures
        Vm::map_ranges(ranges, outcomes, 0) == if k < ranges.len() {
            (
                ranges.take(k as int + 1),
                Err::<(), Error>(Error::SetUserMemoryRegion(outcomes[k as int]->Err_0)),
            )
        } else {
            (ranges, Ok(()))
        },
{
    lemma_mapped_so_far(ranges, outcomes, k, 0);
}

/// Ranges that can be mapped lead on to the next one.
proof fn lemma_mapped_so_far(
    ranges: Seq<GpaRange>,
    outcomes: Seq<std::result::Result<(), OsError>>,
    k: nat,
    mapped: nat,
)
    requires
        mapped <= k <= ranges.len(),
        forall|i: int| 0 <= i < k ==> #[trigger] outcomes[i] is Ok,
    ensures
        Vm::map_ranges(ranges, outcomes, mapped) == Vm::map_ranges(ranges, outcomes, k),
    decreases k - mapped,
{
    if mapped < k {
        assert(outcomes[mapped as int] is Ok);
        lemma_mapped_so_far(ranges, outcomes, k, mapped + 1);
    }
}

/// Setting up a partition takes three calls, each on the partition that the first one created;
/// when all of them succeed there is a virtual machine in that partition, and when one fails its
/// error is the outcome.
pub proof fn lemma_vm_setup(
    created: std::result::Result<isize, OsError>,
    counted: std::result::Result<isize, OsError>,
    set_up: std::result::Result<isize, OsError>,
)
    ensures
        match created {
            Err(e) => VmSetup::CreatePartition.follow_up(created) == Err::<VmProgress, Error>(
                Error::VmSetup(e),
            ),
            Ok(partition) => {
                let count = VmSetup::SetProcessorCount { partition, count: 1 };
                &&& VmSetup::CreatePartition.follow_up(created) == Ok::<VmProgress, Error>(
                    VmProgress::Call(count),
                )
                &&& match counted {
                    Err(e) => count.follow_up(counted) == Err::<VmProgress, Error>(
                        Error::VmSetup(e),
                    ),
                    Ok(_) => {
                        let setup = VmSetup::SetupPartition { partition };
                        &&& count.follow_up(counted) == Ok::<VmProgress, Error>(
                            VmProgress::Call(setup),
                        )
                        &&& match set_up {
                            Err(e) => setup.follow_up(set_up) == Err::<VmProgress, Error>(
                                Error::VmSetup(e),
                            ),
                            Ok(_) => setup.follow_up(set_up) matches Ok(VmProgress::Ready(vm))
                                && vm.handle() == partition,
                        }
                    },
                }
            },
        },
{
}

/// Encapsulates configuration parameters for the guest vCPUs.
#[derive(Debug, Eq, PartialEq)]
pub struct VcpuConfig<T> {
    /// Number of guest VCPUs.
    pub vcpu_count: u8,
    /// Enable hyperthreading in the CPUID configuration.
    pub ht_enabled: bool,
    /// CPUID template to use.
    pub cpu_template: Option<T>,
}

#[derive(Clone, Copy, Debug, PartialEq, Eq, Structural)]
pub enum VcpuEvent {
    Pause,
    Resume,
}

#[derive(Clone, Copy, Debug, PartialEq, Eq, Structural)]
pub enum VcpuResponse {
    Paused,
    Resumed,
    Exited(u8),
}

/// What the hypervisor knows a virtual processor by.
#[derive(Clone, Copy, Debug, PartialEq, Eq, Structural)]
pub struct ProcessorId {
    pub partition: isize,
    pub vp_index: u32,
}

/// A call that adds a virtual processor to a partition.
#[derive(Clone, Copy, Debug, PartialEq, Eq, Structural)]
pub struct CreateProcessor {
    pub processor: ProcessorId,
    pub flags: u32,
}

/// What the thread of a virtual processor does next.
#[derive(Clone, Copy, Debug, PartialEq, Eq, Structural)]
pub enum RunAction {
    /// Run the guest once more.
    Continue,
    /// Leave, with an exit code.
    Exit(u8),
}

/// A virtual processor, with the buses that its accesses go to, and its ends of the channels to
/// whoever controls it. The other ends wait in it until its thread is started.
pub struct Vcpu<B> {
    id: u8,
    partition: isize,
    mmio_bus: Option<B>,
    pio_bus: Option<B>,
    exit_evt: EventFd,
    #[allow(unused)]
    event_receiver: Receiver<VcpuEvent>,
    event_sender: Option<Sender<VcpuEvent>>,
    response_receiver: Option<Receiver<VcpuResponse>>,
    response_sender: Sender<VcpuResponse>,
}

/// Wrapper over the ends of the channels that lead to the thread of a virtual processor.
pub struct VcpuHandle {
    event_sender: Sender<VcpuEvent>,
    response_receiver: Receiver<VcpuResponse>,
}

impl VcpuHandle {
    /// The channel that takes events to the processor.
    pub closed spec fn spec_event_sender(self) -> Sender<VcpuEvent> {
        self.event_sender
    }

    /// The channel that brings responses from the processor.
    pub closed spec fn spec_response_receiver(self) -> Receiver<VcpuResponse> {
        self.response_receiver
    }

    pub fn new(event_sender: Sender<VcpuEvent>, response_receiver: Receiver<VcpuResponse>) -> (
        handle: Self)
        ensures
            handle.spec_event_sender() == event_sender,
            handle.spec_response_receiver() == response_receiver,
    {
        Self { event_sender, response_receiver }
    }

    /// Tells whether the channel to the processor takes any number of events.
    pub fn is_unbounded(&self) -> (r: bool)
        ensures
            r == (event_capacity(self.spec_event_sender()) is None),
    {
        capacity_for_events(&self.event_sender).is_none()
    }

    /// Sends an event to the processor. It comes back if the processor is gone.
    ///
    /// A channel that takes only so many events could leave the caller waiting for ever.
    pub fn send_event(&mut self, event: VcpuEvent) -> (r: std::result::Result<(), VcpuEvent>)
        requires
            event_capacity(old(self).spec_event_sender()) is None,
        ensures
            final(self).spec_response_receiver() == old(self).spec_response_receiver(),
            event_capacity(final(self).spec_event_sender()) is None,
            forall|receiver: Receiver<VcpuEvent>| #[trigger]
                event_ends(final(self).spec_event_sender(), receiver) == event_ends(
                    old(self).spec_event_sender(),
                    receiver,
                ),
            match r {
                Ok(()) => sent_events(final(self).spec_event_sender()) == sent_events(
                    old(self).spec_event_sender(),
                ).push(event),
                Err(unsent) => unsent == event && *final(self) == *old(self),
            },
    {
        send_event(&mut self.event_sender, event)
    }

    pub fn response_receiver(&self) -> (receiver: &Receiver<VcpuResponse>)
        ensures
            *receiver == self.spec_response_receiver(),
    {
        &self.response_receiver
    }
}

/// How many batches of registers are set after one more was to be: a failure ends the
/// configuration.
pub open spec fn batch_set(set: nat, outcome: std::result::Result<(), OsError>) -> Result<nat> {
    match outcome {
        Ok(()) => Ok(set + 1),
        Err(e) => Err(Error::REGSConfiguration(e)),
    }
}

/// The batches of registers that a configuration sets or tries to, and what comes of it, where
/// batch number `i` comes back with `outcomes[i]`, and the first `set` batches are set.
pub open spec fn set_batches(
    batches: Seq<RegisterCallView>,
    outcomes: Seq<std::result::Result<(), OsError>>,
    set: nat,
) -> (Seq<RegisterCallView>, Result<()>)
    decreases batches.len() - set,
{
    if set >= batches.len() {
        (batches, Ok(()))
    } else {
        match batch_set(set, outcomes[set as int]) {
            Ok(now) => set_batches(batches, outcomes, now),
            Err(e) => (batches.take(set as int + 1), Err(e)),
        }
    }
}

/// The first batch of registers that cannot be set ends the configuration with its error: those
/// before it are set, and none after it is tried. If there is no such batch, all are set.
pub proof fn lemma_configuration_ends_at_failure(
    batches: Seq<RegisterCallView>,
    outcomes: Seq<std::result::Result<(), OsError>>,
    k: nat,
)
    requires
        k <= batches.len(),
        forall|i: int| 0 <= i < k ==> #[trigger] outcomes[i] is Ok,
        k < batches.len() ==> outcomes[k as int] is Err,
    ensures
        set_batches(batches, outcomes, 0) == if k < batches.len() {
            (
                batches.take(k as int + 1),
                Err::<(), Error>(Error::REGSConfiguration(outcomes[k as int]->Err_0)),
            )
        } else {
            (batches, Ok(()))
        },
{
    lemma_set_so_far(batches, outcomes, k, 0);
}

/// Batches that can be set lead on to the next one.
proof fn lemma_set_so_far(
    batches: Seq<RegisterCallView>,
    outcomes: Seq<std::result::Result<(), OsError>>,
    k: nat,
    set: nat,
)
    requires
        set <= k <= batches.len(),
        forall|i: int| 0 <= i < k ==> #[trigger] outcomes[i] is Ok,
    ensures
        set_batches(batches, outcomes, set) == set_batches(batches, outcomes, k),
    decreases k - set,
{
    if set < k {
        assert(outcomes[set as int] is Ok);
        lemma_set_so_far(batches, outcomes, k, set + 1);
    }
}

/// What the thread of a virtual processor does after the guest has run once.
pub open spec fn action_after(outcome: Result<VcpuEmulation>) -> RunAction {
    match outcome {
        Ok(VcpuEmulation::Handled) => RunAction::Continue,
        Ok(VcpuEmulation::Stopped) => RunAction::Exit(FC_EXIT_CODE_OK),
        Err(_) => RunAction::Exit(FC_EXIT_CODE_GENERIC_ERROR),
    }
}

/// The slot of a thread after processor `vcpu` was to be entered: a taken slot stays as it is.
pub open spec fn slot_entered(slot: Option<usize>, vcpu: usize) -> Option<usize> {
    if slot is Some {
        slot
    } else {
        Some(vcpu)
    }
}

/// The slot of a thread after processor `vcpu` was to be taken out: another one stays in.
pub open spec fn slot_left(slot: Option<usize>, vcpu: usize) -> Option<usize> {
    if slot == Some(vcpu) {
        None
    } else {
        slot
    }
}

/// The decimal digits of a number.
pub open spec fn decimal(n: nat) -> Seq<char>
    decreases n,
{
    if n < 10 {
        seq![digit(n)]
    } else {
        decimal(n / 10).push(digit(n % 10))
    }
}

/// The digit for a number below ten.
pub open spec fn digit(n: nat) -> char {
    seq!['0', '1', '2', '3', '4', '5', '6', '7', '8', '9'][n as int]
}

fn digit_str(n: u8) -> (s: &'static str)
    requires
        n < 10,
    ensures
        s@ == seq![digit(n as nat)],
{
    proof {
        reveal_strlit("0");
        reveal_strlit("1");
        reveal_strlit("2");
        reveal_strlit("3");
        reveal_strlit("4");
        reveal_strlit("5");
        reveal_strlit("6");
        reveal_strlit("7");
        reveal_strlit("8");
        reveal_strlit("9");
    }
    let s: &'static str = match n {
        0 => "0",
        1 => "1",
        2 => "2",
        3 => "3",
        4 => "4",
        5 => "5",
        6 => "6",
        7 => "7",
        8 => "8",
        _ => "9",
    };
    assert(s@ =~= seq![digit(n as nat)]);
    s
}

impl<B> Vcpu<B> {
    /// The number of the processor.
    pub closed spec fn spec_id(self) -> u8 {
        self.id
    }

    /// The handle of the partition that the processor belongs to.
    pub closed spec fn spec_partition(self) -> isize {
        self.partition
    }

    /// The bus for accesses to memory-mapped registers.
    pub closed spec fn spec_mmio_bus(self) -> Option<B> {
        self.mmio_bus
    }

    /// The bus for accesses to I/O ports.
    pub closed spec fn spec_pio_bus(self) -> Option<B> {
        self.pio_bus
    }

    /// The event that is signalled when the processor leaves.
    pub closed spec fn spec_exit_evt(self) -> EventFd {
        self.exit_evt
    }

    /// The channel for events to the processor, until its thread is started.
    pub closed spec fn spec_event_sender(self) -> Option<Sender<VcpuEvent>> {
        self.event_sender
    }

    /// The channel for responses from the processor, until its thread is started.
    pub closed spec fn spec_response_receiver(self) -> Option<Receiver<VcpuResponse>> {
        self.response_receiver
    }

    /// The end of the channel for events that the processor keeps.
    pub closed spec fn spec_event_receiver(self) -> Receiver<VcpuEvent> {
        self.event_receiver
    }

    /// The end of the channel for responses that the processor keeps.
    pub closed spec fn spec_response_sender(self) -> Sender<VcpuResponse> {
        self.response_sender
    }

    /// The responses that the processor has sent.
    pub open spec fn responses(self) -> Seq<VcpuResponse> {
        sent_responses(self.spec_response_sender())
    }

    /// The other ends of the channels of the processor wait in it.
    pub open spec fn holds_other_ends(self) -> bool {
        &&& self.spec_event_sender() matches Some(sender) && event_ends(
            sender,
            self.spec_event_receiver(),
        )
        &&& self.spec_response_receiver() matches Some(receiver) && response_ends(
            self.spec_response_sender(),
            receiver,
        )
    }

    /// The handle leads to the processor: events that are sent through it come to the processor,
    /// and the responses of the processor come out of it.
    pub open spec fn controlled_by(self, handle: VcpuHandle) -> bool {
        &&& event_ends(handle.spec_event_sender(), self.spec_event_receiver())
        &&& response_ends(self.spec_response_sender(), handle.spec_response_receiver())
    }

    /// The calls that set the registers of the processor so that it starts at `boot_ip`, in the
    /// order in which they are made.
    pub open spec fn boot_calls(self, boot_ip: u64) -> Seq<RegisterCallView> {
        seq![
            self.spec_register_call(boot_sregs()),
            self.spec_register_call(boot_regs(boot_ip)),
            self.spec_register_call(boot_fpu()),
            self.spec_register_call(boot_msrs()),
        ]
    }

    /// The two are the same processor, whatever other ends of its channels wait in them.
    pub open spec fn same_processor(self, other: Self) -> bool {
        &&& self.spec_id() == other.spec_id()
        &&& self.spec_partition() == other.spec_partition()
        &&& self.spec_mmio_bus() == other.spec_mmio_bus()
        &&& self.spec_pio_bus() == other.spec_pio_bus()
        &&& self.spec_exit_evt() == other.spec_exit_evt()
        &&& self.spec_event_receiver() == other.spec_event_receiver()
        &&& self.spec_response_sender() == other.spec_response_sender()
    }

    /// The call that creates processor number `id` in a partition. Its outcome goes to
    /// `new_x86_64`.
    pub fn create_call(id: u8, partition: isize) -> (call: CreateProcessor)
        ensures
            call == (CreateProcessor {
                processor: ProcessorId { partition, vp_index: id as u32 },
                flags: 0,
            }),
    {
        CreateProcessor { processor: ProcessorId { partition, vp_index: id as u32 }, flags: 0 }
    }

    /// The processor that is run, the outcome of which goes to `run_emulation`, and that is deleted
    /// once it is not needed any more.
    pub fn processor(&self) -> (processor: ProcessorId)
        ensures
            processor == (ProcessorId {
                partition: self.spec_partition(),
                vp_index: self.spec_id() as u32,
            }),
    {
        ProcessorId { partition: self.partition, vp_index: self.id as u32 }
    }

    /// Makes a virtual processor of `created`, the outcome of `create_call` for the same `id` and
    /// partition.
    pub fn new_x86_64(
        id: u8,
        partition: isize,
        pio_bus: B,
        exit_evt: EventFd,
        created: std::result::Result<(), OsError>,
    ) -> (r: Result<Self>)
        ensures
            match created {
                Ok(()) => r matches Ok(vcpu) && {
                    &&& vcpu.spec_id() == id
                    &&& vcpu.spec_partition() == partition
                    &&& vcpu.spec_mmio_bus() is None
                    &&& vcpu.spec_pio_bus() == Some(pio_bus)
                    &&& vcpu.spec_exit_evt() == exit_evt
                    &&& vcpu.holds_other_ends()
                    &&& vcpu.spec_event_sender() matches Some(sender) && sent_events(sender)
                        == Seq::<VcpuEvent>::empty() && event_capacity(sender) is None
                    &&& vcpu.responses() == Seq::<VcpuResponse>::empty()
                    &&& response_capacity(vcpu.spec_response_sender()) is None
                },
                Err(e) => r == Err::<Self, Error>(Error::WhpError(e)),
            },
    {
        match created {
            Ok(()) => {},
            Err(e) => return Err(Error::WhpError(e)),
        }
        let (event_sender, event_receiver) = event_channel();
        let (response_sender, response_receiver) = response_channel();
        Ok(
            Vcpu {
                id,
                partition,
                mmio_bus: None,
                pio_bus: Some(pio_bus),
                exit_evt,
                event_receiver,
                event_sender: Some(event_sender),
                response_receiver: Some(response_receiver),
                response_sender,
            },
        )
    }

    /// Returns the cpu index as seen by the guest OS.
    pub fn cpu_index(&self) -> (id: u8)
        ensures
            id == self.spec_id(),
    {
        self.id
    }

    pub fn partition(&self) -> (partition: isize)
        ensures
            partition == self.spec_partition(),
    {
        self.partition
    }

    pub fn mmio_bus(&self) -> (bus: Option<&B>)
        ensures
            match bus {
                Some(bus) => self.spec_mmio_bus() == Some(*bus),
                None => self.spec_mmio_bus() is None,
            },
    {
        self.mmio_bus.as_ref()
    }

    pub fn pio_bus(&self) -> (bus: Option<&B>)
        ensures
            match bus {
                Some(bus) => self.spec_pio_bus() == Some(*bus),
                None => self.spec_pio_bus() is None,
            },
    {
        self.pio_bus.as_ref()
    }

    /// Tells whether the channel for responses takes any number of them.
    pub fn is_unbounded(&self) -> (r: bool)
        ensures
            r == (response_capacity(self.spec_response_sender()) is None),
    {
        capacity_for_responses(&self.response_sender).is_none()
    }

    /// Sets a MMIO bus for this vcpu.
    pub fn set_mmio_bus(&mut self, mmio_bus: B)
        ensures
            final(self).spec_mmio_bus() == Some(mmio_bus),
            final(self).spec_id() == old(self).spec_id(),
            final(self).spec_partition() == old(self).spec_partition(),
            final(self).spec_pio_bus() == old(self).spec_pio_bus(),
            final(self).spec_exit_evt() == old(self).spec_exit_evt(),
            final(self).spec_event_receiver() == old(self).spec_event_receiver(),
            final(self).spec_event_sender() == old(self).spec_event_sender(),
            final(self).spec_response_receiver() == old(self).spec_response_receiver(),
            final(self).spec_response_sender() == old(self).spec_response_sender(),
    {
        self.mmio_bus = Some(mmio_bus);
    }

    /// Prepares the processor to start the kernel at `kernel_start_addr`: the first processor
    /// writes the boot tables into guest memory, and every one gets the calls that are to be made,
    /// each of which sets a batch of registers. The outcome of a batch goes to `registers_set`.
    pub fn configure_x86_64<T>(
        &self,
        guest_mem: &mut GuestMemoryMmap<()>,
        kernel_start_addr: u64,
        _vcpu_config: &VcpuConfig<T>,
    ) -> (r: Result<Vec<RegisterCall>>)
        requires
            self.spec_id() == 0 ==> nonempty_regions(guest_regions(*old(guest_mem))),
        ensures
            guest_regions(*final(guest_mem)) == guest_regions(*old(guest_mem)),
            host_addresses(*final(guest_mem)) == host_addresses(*old(guest_mem)),
            guest_bytes(*final(guest_mem)) == if self.spec_id() == 0 {
                store_all(guest_bytes(*old(guest_mem)), boot_writes())
            } else {
                guest_bytes(*old(guest_mem))
            },
            if self.spec_id() != 0 || all_fit(guest_bytes(*old(guest_mem)), boot_writes()) {
                r matches Ok(batches) && batches.len() == self.boot_calls(kernel_start_addr).len()
                    && forall|i: int|
                    0 <= i < batches.len() ==> (#[trigger] batches[i])@ == self.boot_calls(
                        kernel_start_addr,
                    )[i]
            } else {
                r == Err::<Vec<RegisterCall>, Error>(Error::WhpError(OsError { code: 0 }))
            },
            self.spec_id() != 0 ==> r is Ok,
            r matches Ok(batches) ==> {
                &&& batches.len() == 4
                &&& forall|i: int|
                    0 <= i < 4 ==> (#[trigger] batches[i]).partition == self.spec_partition()
                        && batches[i].vp_index == self.spec_id()
                &&& batches[0].writes@ == boot_sregs()
                &&& batches[1].writes.len() == 5
                &&& batches[1].writes[0] == (RegisterWrite {
                    name: RegisterName::Rip,
                    value: RegisterValue::Reg64(kernel_start_addr),
                })
                &&& batches[2].writes@ == boot_fpu()
                &&& batches[3].writes@ == boot_msrs()
            },
    {
        let ghost before = guest_bytes(*guest_mem);
        // Only set up page tables and memory structures for the BSP (id == 0).
        if self.id == 0 {
            proof {
                lemma_store_all_concat(before, page_table_writes(), gdt_idt_writes());
            }
            match setup_page_tables(guest_mem) {
                Ok(()) => {},
                Err(e) => return Err(e),
            }
            match setup_gdt_idt(guest_mem) {
                Ok(()) => {},
                Err(e) => return Err(e),
            }
        }
        let batches = vec![
            self.setup_sregs(),
            self.setup_regs(kernel_start_addr),
            self.setup_fpu(),
            self.setup_msrs(),
        ];
        Ok(batches)
    }

    /// Goes on after `set` of the batches were set and the next one came back with `outcome`: the
    /// number of batches that are set now, or the failure that ends the configuration.
    pub fn registers_set(set: usize, outcome: std::result::Result<(), OsError>) -> (r: Result<
        usize,
    >)
        requires
            set < usize::MAX,
        ensures
            match r {
                Ok(now) => batch_set(set as nat, outcome) == Ok::<nat, Error>(now as nat),
                Err(e) => batch_set(set as nat, outcome) == Err::<nat, Error>(e),
            },
            outcome is Ok ==> (r matches Ok(now) && now == set + 1),
            outcome matches Err(e) ==> r == Err::<usize, Error>(Error::REGSConfiguration(e)),
    {
        match outcome {
            Ok(()) => Ok(set + 1),
            Err(e) => Err(Error::REGSConfiguration(e)),
        }
    }

    /// Enters a processor, known by its address `vcpu`, into the slot of its thread.
    pub fn init_thread_local_data(slot: &mut Option<usize>, vcpu: usize) -> (r: Result<()>)
        ensures
            *final(slot) == slot_entered(*old(slot), vcpu),
            *old(slot) is None ==> *final(slot) == Some(vcpu),
            *old(slot) is Some ==> *final(slot) == *old(slot),
            if *old(slot) is None {
                r is Ok
            } else {
                r == Err::<(), Error>(Error::VcpuTlsInit)
            },
    {
        if slot.is_some() {
            return Err(Error::VcpuTlsInit);
        }
        *slot = Some(vcpu);
        Ok(())
    }

    /// Takes a processor, known by its address `vcpu`, out of the slot of its thread.
    pub fn reset_thread_local_data(slot: &mut Option<usize>, vcpu: usize) -> (r: Result<()>)
        ensures
            *final(slot) == slot_left(*old(slot), vcpu),
            *old(slot) == Some(vcpu) ==> *final(slot) is None,
            *old(slot) != Some(vcpu) ==> *final(slot) == *old(slot),
            if *old(slot) == Some(vcpu) {
                r is Ok
            } else {
                r == Err::<(), Error>(Error::VcpuTlsNotPresent)
            },
    {
        if let Some(occupant) = *slot {
            if occupant == vcpu {
                *slot = None;
                return Ok(());
            }
        }
        Err(Error::VcpuTlsNotPresent)
    }

    /// The name of the thread that the processor runs in.
    pub fn thread_name(&self) -> (name: String)
        ensures
            name@ == "fc_vcpu "@ + decimal(self.spec_id() as nat),
    {
        reveal_with_fuel(decimal, 3);
        let id: u8 = self.id;
        let mut name = "fc_vcpu ".to_owned();
        if id >= 100 {
            name.append(digit_str(id / 100));
        }
        if id >= 10 {
            name.append(digit_str(id / 10 % 10));
        }
        name.append(digit_str(id % 10));
        assert(name@ =~= "fc_vcpu "@ + decimal(id as nat));
        name
    }

    /// Decides, after the guest has run once, whether it runs again.
    pub fn run(outcome: &Result<VcpuEmulation>) -> (action: RunAction)
        ensures
            action == action_after(*outcome),
            action is Continue <==> *outcome == Ok::<VcpuEmulation, Error>(VcpuEmulation::Handled),
            *outcome == Ok::<VcpuEmulation, Error>(VcpuEmulation::Stopped) ==> action
                == RunAction::Exit(0),
            *outcome is Err ==> action == RunAction::Exit(1),
    {
        match outcome {
            Ok(VcpuEmulation::Handled) => RunAction::Continue,
            Ok(VcpuEmulation::Stopped) => RunAction::Exit(FC_EXIT_CODE_OK),
            Err(_) => RunAction::Exit(FC_EXIT_CODE_GENERIC_ERROR),
        }
    }

    /// Parts the processor, which moves to its own thread, from the handle that controls it.
    pub fn start_threaded(self) -> (r: (Self, VcpuHandle))
        requires
            self.spec_event_sender() is Some,
            self.spec_response_receiver() is Some,
        ensures
            r.0.same_processor(self),
            r.0.spec_event_sender() is None,
            r.0.spec_response_receiver() is None,
            Some(r.1.spec_event_sender()) == self.spec_event_sender(),
            Some(r.1.spec_response_receiver()) == self.spec_response_receiver(),
            self.holds_other_ends() ==> r.0.controlled_by(r.1),
    {
        let mut vcpu = self;
        let event_sender = vcpu.event_sender.take().unwrap();
        let response_receiver = vcpu.response_receiver.take().unwrap();
        (vcpu, VcpuHandle::new(event_sender, response_receiver))
    }

    /// Leaves with an exit code: sends the response, after which the exit event is to be
    /// signalled. The response comes back if nobody can receive it any more; `exit_sent` says what
    /// follows in either case.
    pub fn exit(&mut self, exit_code: u8) -> (r: std::result::Result<EventCall, VcpuResponse>)
        requires
            response_capacity(old(self).spec_response_sender()) is None,
        ensures
            match r {
                Ok(call) => {
                    &&& call == (EventCall::Signal { handle: old(self).spec_exit_evt().handle() })
                    &&& final(self).responses() == old(self).responses().push(
                        VcpuResponse::Exited(exit_code),
                    )
                },
                Err(unsent) => {
                    &&& unsent == VcpuResponse::Exited(exit_code)
                    &&& final(self).spec_response_sender() == old(self).spec_response_sender()
                },
            },
            response_capacity(final(self).spec_response_sender()) is None,
            forall|receiver: Receiver<VcpuResponse>| #[trigger]
                response_ends(final(self).spec_response_sender(), receiver) == response_ends(
                    old(self).spec_response_sender(),
                    receiver,
                ),
            final(self).spec_id() == old(self).spec_id(),
            final(self).spec_partition() == old(self).spec_partition(),
            final(self).spec_mmio_bus() == old(self).spec_mmio_bus(),
            final(self).spec_pio_bus() == old(self).spec_pio_bus(),
            final(self).spec_exit_evt() == old(self).spec_exit_evt(),
            final(self).spec_event_receiver() == old(self).spec_event_receiver(),
            final(self).spec_event_sender() == old(self).spec_event_sender(),
            final(self).spec_response_receiver() == old(self).spec_response_receiver(),
    {
        let sent = send_response(&mut self.response_sender, VcpuResponse::Exited(exit_code));
        self.exit_sent(sent)
    }

    /// Goes on with leaving once the response was sent: the exit event is to be signalled. A
    /// response that could not be sent is handed back, and nothing is signalled.
    pub fn exit_sent(&self, sent: std::result::Result<(), VcpuResponse>) -> (r: std::result::Result<
        EventCall,
        VcpuResponse,
    >)
        ensures
            r == match sent {
                Ok(()) => Ok::<EventCall, VcpuResponse>(
                    EventCall::Signal { handle: self.spec_exit_evt().handle() },
                ),
                Err(unsent) => Err(unsent),
            },
    {
        match sent {
            Ok(()) => Ok(self.exit_evt.write(1)),
            Err(unsent) => Err(unsent),
        }
    }
}

/// A thread holds at most one processor: one that has entered a free slot keeps others out, is
/// not taken out by others, and leaves the slot free.
pub proof fn lemma_slot_holds_one(vcpu: usize, other: usize)
    ensures
        slot_entered(slot_entered(None, vcpu), other) == Some(vcpu),
        other != vcpu ==> slot_left(slot_entered(None, vcpu), other) == Some(vcpu),
        slot_left(slot_entered(None, vcpu), vcpu) is None,
{
}

/// What the thread of a virtual processor does after a number of runs of the guest: it leaves at
/// the first one that tells it to.
pub open spec fn action_after_all(outcomes: Seq<Result<VcpuEmulation>>) -> RunAction
    decreases outcomes.len(),
{
    if outcomes.len() == 0 {
        RunAction::Continue
    } else if action_after_all(outcomes.drop_last()) is Exit {
        action_after_all(outcomes.drop_last())
    } else {
        action_after(outcomes.last())
    }
}

/// The thread goes on exactly as long as every run was handled.
pub proof fn lemma_runs_while_handled(outcomes: Seq<Result<VcpuEmulation>>)
    ensures
        action_after_all(outcomes) is Continue <==> forall|i: int|
            0 <= i < outcomes.len() ==> #[trigger] outcomes[i] == Ok::<VcpuEmulation, Error>(
                VcpuEmulation::Handled,
            ),
    decreases outcomes.len(),
{
    if outcomes.len() > 0 {
        let before = outcomes.drop_last();
        lemma_runs_while_handled(before);
        assert(outcomes[outcomes.len() - 1] == outcomes.last());
        if action_after_all(outcomes) is Continue {
            assert forall|i: int| 0 <= i < outcomes.len() implies #[trigger] outcomes[i] == Ok::<
                VcpuEmulation,
                Error,
            >(VcpuEmulation::Handled) by {
                if i < before.len() {
                    assert(before[i] == outcomes[i]);
                }
            }
        }
        if forall|i: int|
            0 <= i < outcomes.len() ==> #[trigger] outcomes[i] == Ok::<VcpuEmulation, Error>(
                VcpuEmulation::Handled,
            ) {
            assert forall|i: int| 0 <= i < before.len() implies #[trigger] before[i] == Ok::<
                VcpuEmulation,
                Error,
            >(VcpuEmulation::Handled) by {
                assert(before[i] == outcomes[i]);
            }
        }
    }
}

/// The first run that was not handled fixes the exit code: success if the guest stopped, and a
/// generic error if the run failed, whatever would come after it.
pub proof fn lemma_first_unhandled_run_ends(
    handled: Seq<Result<VcpuEmulation>>,
    last: Result<VcpuEmulation>,
    rest: Seq<Result<VcpuEmulation>>,
)
    requires
        forall|i: int|
            0 <= i < handled.len() ==> #[trigger] handled[i] == Ok::<VcpuEmulation, Error>(
                VcpuEmulation::Handled,
            ),
        last != Ok::<VcpuEmulation, Error>(VcpuEmulation::Handled),
    ensures
        action_after_all(handled.push(last) + rest) == RunAction::Exit(
            if last is Ok {
                FC_EXIT_CODE_OK
            } else {
                FC_EXIT_CODE_GENERIC_ERROR
            },
        ),
    decreases rest.len(),
{
    let all = handled.push(last) + rest;
    if rest.len() == 0 {
        assert(all =~= handled.push(last));
        assert(all.drop_last() =~= handled);
        lemma_runs_while_handled(handled);
    } else {
        assert(all.drop_last() =~= handled.push(last) + rest.drop_last());
        lemma_first_unhandled_run_ends(handled, last, rest.drop_last());
    }
}

} // verus!
