//! Laws that the calls of the library keep, stated over what goes into a call and what comes out of
//! it.

use crate::boot::{gdt_idt_writes, page_table_writes, setup_gdt_idt, setup_page_tables};
use crate::emulation::{
    can_emulate_exit, BusKind, Emulation, ExitContext, ExitReason, IoPortAccess, MemoryAccess,
    VcpuEmulation, VpContext,
};
use crate::channel::{event_capacity, response_capacity, sent_events};
use crate::epoll::{
    ControlOperation, Epoll, EpollEvent, EventSet, WaitRequest, WaitStep,
};
use crate::errno;
use crate::eventfd::{EventCall, EventFd};
use crate::gdt::{
    gdt_entry, lemma_segment_of_descriptor, whp_segment_from_gdt, SegmentRegister,
};
use crate::guest_mem::{
    all_fit, fits, guest_bytes, guest_regions, has_nonempty_regions, host_addresses,
    lemma_store_all_concat, lemma_store_all_frame, lemma_store_all_keys, lemma_word_of_store_all,
    store_all, word_at,
};
use crate::link_args::{link_arg_lines, link_args};
use crate::os::{IoError, IoErrorKind, OsError};
use crate::paging::{
    lemma_boot_frame, lemma_boot_identity_map, lemma_page_tables_identity_map, translate, Mapping,
};
use crate::registers::{
    RegisterCall, RegisterName, RegisterValue, RegisterWrite, TableRegister,
};
use crate::vstate;
use crate::vstate::{
    decimal, digit, CreateProcessor, Error, GpaRange, ProcessorId, Result, RunAction, Vcpu,
    VcpuConfig, VcpuEvent, VcpuHandle, VcpuResponse, Vm, VmProgress, VmSetup,
};
use crate::whpioapic::{DeviceError, WhpIoapic};
use vm_memory::GuestMemoryMmap;
use vstd::arithmetic::power::pow;
use vstd::prelude::*;

verus! {

/// What comes of an exit of the guest.
pub open spec fn handled<B>(vcpu: &Vcpu<B>, exit: ExitContext, r: Result<Emulation>) -> bool {
    call_ensures(Vcpu::<B>::run_emulation, (vcpu, Ok(exit)), r)
}

/// An access of the guest to memory goes to the bus for memory-mapped registers, at the very
/// address that the guest accessed, in the name of the processor, as a write if and only if bit 0
/// says so, with the bytes of the instruction, one for one.
pub proof fn lemma_memory_access_reaches_its_address<B>(
    vcpu: &Vcpu<B>,
    exit: ExitContext,
    access: MemoryAccess,
    r: Result<Emulation>,
)
    requires
        exit.reason == ExitReason::MemoryAccess(access),
        vcpu.spec_mmio_bus() is Some,
        handled(vcpu, exit, r),
    ensures
        r matches Ok(emulation) && emulation.access matches Some(sent) && {
            &&& sent.bus == BusKind::Mmio
            &&& sent.addr == access.gpa
            &&& sent.vcpuid == vcpu.spec_id()
            &&& sent.is_write <==> access.access_info & 1 == 1
            &&& sent.data.len() == access.instruction_byte_count
            &&& forall|k: int|
                0 <= k < access.instruction_byte_count ==> #[trigger] sent.data[k]
                    == access.instruction_bytes[k]
        },
{
    let info = access.access_info;
    assert((info & 1 == 1) == (info % 2 == 1)) by (bit_vector);
}

/// Accesses to addresses that lie `distance` apart come to the bus as far apart, so no two
/// addresses are taken for one.
pub proof fn lemma_memory_accesses_keep_their_distance<B>(
    vcpu: &Vcpu<B>,
    exit: ExitContext,
    access: MemoryAccess,
    r: Result<Emulation>,
    other_exit: ExitContext,
    other: MemoryAccess,
    other_r: Result<Emulation>,
    distance: int,
)
    requires
        exit.reason == ExitReason::MemoryAccess(access),
        other_exit.reason == ExitReason::MemoryAccess(other),
        other.gpa == access.gpa + distance,
        vcpu.spec_mmio_bus() is Some,
        handled(vcpu, exit, r),
        handled(vcpu, other_exit, other_r),
    ensures
        r matches Ok(e) && e.access matches Some(sent) && other_r matches Ok(o) && o.access matches Some(
            other_sent,
        ) && other_sent.addr == sent.addr + distance,
{
}

/// An access of the guest to a port goes to the bus for ports, at the very port that the guest
/// accessed, in the name of the processor, as a write if and only if bit 0 says so, with as many
/// bytes as bits 16 to 18 say. A write carries the low bytes of `rax`, least significant first, and
/// a read starts from zeroes.
pub proof fn lemma_port_access_reaches_its_port<B>(
    vcpu: &Vcpu<B>,
    exit: ExitContext,
    access: IoPortAccess,
    r: Result<Emulation>,
)
    requires
        exit.reason == ExitReason::IoPortAccess(access),
        vcpu.spec_pio_bus() is Some,
        handled(vcpu, exit, r),
    ensures
        r matches Ok(emulation) && emulation.access matches Some(sent) && {
            &&& sent.bus == BusKind::Pio
            &&& sent.addr == access.port
            &&& sent.vcpuid == vcpu.spec_id()
            &&& sent.is_write <==> access.access_info & 1 == 1
            &&& sent.data.len() == (access.access_info >> 16) & 7
            &&& sent.is_write ==> forall|k: int|
                0 <= k < sent.data.len() ==> #[trigger] sent.data[k] == access.rax as int / pow(
                    256,
                    k as nat,
                ) % 256
            &&& !sent.is_write ==> forall|k: int|
                0 <= k < sent.data.len() ==> #[trigger] sent.data[k] == 0
        },
{
    let info = access.access_info;
    assert((info & 1 == 1) == (info % 2 == 1)) by (bit_vector);
    assert((info >> 16) & 7 == info / 0x1_0000 % 8 && (info >> 16) & 7 < 8) by (bit_vector);
    reveal_with_fuel(pow, 9);
    assert(pow(256, 0) == 0x1);
    assert(pow(256, 1) == 0x100);
    assert(pow(256, 2) == 0x1_0000);
    assert(pow(256, 3) == 0x100_0000);
    assert(pow(256, 4) == 0x1_0000_0000);
    assert(pow(256, 5) == 0x100_0000_0000);
    assert(pow(256, 6) == 0x1_0000_0000_0000);
    let sent = r->Ok_0.access->Some_0;
    if sent.is_write {
        assert forall|k: int| 0 <= k < sent.data.len() implies #[trigger] sent.data[k]
            == access.rax as int / pow(256, k as nat) % 256 by {
            assert(k == 0 || k == 1 || k == 2 || k == 3 || k == 4 || k == 5 || k == 6);
        }
    }
}

/// Accesses to ports that lie `distance` apart come to the bus as far apart, so no two ports are
/// taken for one.
pub proof fn lemma_port_accesses_keep_their_distance<B>(
    vcpu: &Vcpu<B>,
    exit: ExitContext,
    access: IoPortAccess,
    r: Result<Emulation>,
    other_exit: ExitContext,
    other: IoPortAccess,
    other_r: Result<Emulation>,
    distance: int,
)
    requires
        exit.reason == ExitReason::IoPortAccess(access),
        other_exit.reason == ExitReason::IoPortAccess(other),
        other.port == access.port + distance,
        vcpu.spec_pio_bus() is Some,
        handled(vcpu, exit, r),
        handled(vcpu, other_exit, other_r),
    ensures
        r matches Ok(e) && e.access matches Some(sent) && other_r matches Ok(o) && o.access matches Some(
            other_sent,
        ) && other_sent.addr == sent.addr + distance,
{
}

/// An access without a bus to go to, and an exit that is no access, reach no bus.
pub proof fn lemma_nothing_else_reaches_a_bus<B>(
    vcpu: &Vcpu<B>,
    exit: ExitContext,
    r: Result<Emulation>,
)
    requires
        handled(vcpu, exit, r),
        exit.reason is MemoryAccess ==> vcpu.spec_mmio_bus() is None,
        exit.reason is IoPortAccess ==> vcpu.spec_pio_bus() is None,
    ensures
        r matches Ok(emulation) ==> emulation.access is None,
        r is Err <==> exit.reason is Other,
{
}

/// `rip` moves ahead by exactly the number in the low four bits of the bitfield, on this processor
/// and with no other register, and stays where it is if that is zero.
pub proof fn lemma_rip_moves_by_the_length<B>(
    vcpu: &Vcpu<B>,
    vp: VpContext,
    call: Option<RegisterCall>,
)
    requires
        call_ensures(Vcpu::<B>::advance_rip, (vcpu, &vp), call),
    ensures
        call is None <==> vp.bitfield & 0xf == 0,
        call matches Some(call) ==> {
            &&& call.partition == vcpu.spec_partition()
            &&& call.vp_index == vcpu.spec_id()
            &&& call.writes.len() == 1
            &&& call.writes[0].name is Rip
            &&& call.writes[0].value matches RegisterValue::Reg64(rip) && rip - vp.rip
                == vp.bitfield & 0xf && vp.rip < rip <= vp.rip + 15
        },
{
    let bitfield = vp.bitfield;
    assert(bitfield & 0xf == bitfield % 16) by (bit_vector);
}

/// The length counts and nothing else: two instructions of the same length move `rip` as far,
/// wherever they lie and whatever else the bitfield holds.
pub proof fn lemma_same_length_moves_as_far<B>(
    vcpu: &Vcpu<B>,
    vp: VpContext,
    call: Option<RegisterCall>,
    other_vp: VpContext,
    other_call: Option<RegisterCall>,
)
    requires
        vp.bitfield & 0xf == other_vp.bitfield & 0xf,
        call_ensures(Vcpu::<B>::advance_rip, (vcpu, &vp), call),
        call_ensures(Vcpu::<B>::advance_rip, (vcpu, &other_vp), other_call),
    ensures
        call is Some <==> other_call is Some,
        call matches Some(c) ==> other_call matches Some(o) ==> c.writes[0].value
            matches RegisterValue::Reg64(rip) && o.writes[0].value matches RegisterValue::Reg64(
            other_rip,
        ) && rip - vp.rip == other_rip - other_vp.rip,
{
    lemma_rip_moves_by_the_length(vcpu, vp, call);
    lemma_rip_moves_by_the_length(vcpu, other_vp, other_call);
}

/// An access lets the guest go on behind the instruction; no other exit moves `rip`.
pub proof fn lemma_access_goes_on_behind_the_instruction<B>(
    vcpu: &Vcpu<B>,
    exit: ExitContext,
    r: Result<Emulation>,
)
    requires
        handled(vcpu, exit, r),
    ensures
        exit.reason is MemoryAccess || exit.reason is IoPortAccess ==> (r matches Ok(emulation) && {
            &&& emulation.rip is None <==> exit.vp.bitfield & 0xf == 0
            &&& emulation.rip matches Some(call) ==> {
                &&& call.partition == vcpu.spec_partition()
                &&& call.vp_index == vcpu.spec_id()
                &&& call.writes.len() == 1
                &&& call.writes[0].name is Rip
                &&& call.writes[0].value matches RegisterValue::Reg64(rip) && rip - exit.vp.rip
                    == exit.vp.bitfield & 0xf
            }
        }),
        r matches Ok(emulation) ==> (emulation.rip is Some ==> exit.reason is MemoryAccess
            || exit.reason is IoPortAccess),
{
    let bitfield = exit.vp.bitfield;
    assert(bitfield & 0xf == bitfield % 16) by (bit_vector);
}

/// What the thread of a processor does after the guest stopped for a reason: a halted guest ends it
/// with success, an unknown reason or a register that cannot be set with a generic error, and all
/// else lets the guest run on.
pub proof fn lemma_thread_after_exit<B>(
    vcpu: &Vcpu<B>,
    exit: ExitContext,
    r: Result<Emulation>,
    rip_set: std::result::Result<(), OsError>,
    finished: Result<VcpuEmulation>,
    action: RunAction,
)
    requires
        handled(vcpu, exit, r),
        match r {
            Ok(emulation) => call_ensures(Emulation::finish, (&emulation, rip_set), finished),
            Err(e) => finished == Err::<VcpuEmulation, Error>(e),
        },
        call_ensures(Vcpu::<B>::run, (&finished,), action),
    ensures
        action == if exit.reason is Other || rip_set is Err {
            RunAction::Exit(1)
        } else if exit.reason is Halt {
            RunAction::Exit(0)
        } else {
            RunAction::Continue
        },
        rip_set matches Err(e) ==> (!(exit.reason is Other) ==> finished == Err::<
            VcpuEmulation,
            Error,
        >(Error::WhpError(e))),
{
}

/// A run that failed ends the thread with a generic error.
pub proof fn lemma_thread_after_failed_run<B>(
    vcpu: &Vcpu<B>,
    e: OsError,
    r: Result<Emulation>,
    finished: Result<VcpuEmulation>,
    action: RunAction,
)
    requires
        call_ensures(Vcpu::<B>::run_emulation, (vcpu, Err(e)), r),
        r matches Err(e) ==> finished == Err::<VcpuEmulation, Error>(e),
        call_ensures(Vcpu::<B>::run, (&finished,), action),
    ensures
        r == Err::<Emulation, Error>(Error::VcpuRun),
        action == RunAction::Exit(1),
{
}

/// Every exit can be emulated but for an access with more than 16 bytes of instruction, and one
/// whose next instruction would lie beyond the last address. Those that can are all accepted.
pub proof fn lemma_exits_that_can_be_emulated<B>(vcpu: &Vcpu<B>, exit: ExitContext, r: bool)
    requires
        call_ensures(can_emulate_exit, (&exit,), r),
    ensures
        !r <==> {
            ||| exit.reason matches ExitReason::MemoryAccess(access)
                && access.instruction_byte_count > 16
            ||| (exit.reason is MemoryAccess || exit.reason is IoPortAccess) && exit.vp.rip + (
            exit.vp.bitfield & 0xf) > u64::MAX
        },
        r ==> call_requires(Vcpu::<B>::run_emulation, (vcpu, Ok(exit))),
        call_requires(can_emulate_exit, (&exit,)),
{
    let bitfield = exit.vp.bitfield;
    assert(bitfield & 0xf == bitfield % 16) by (bit_vector);
}

/// A list of writes leaves a register with a value.
pub open spec fn leaves(
    writes: Seq<RegisterWrite>,
    name: RegisterName,
    value: RegisterValue,
) -> bool {
    &&& exists|i: int| 0 <= i < writes.len() && #[trigger] writes[i].name == name
    &&& forall|i: int|
        0 <= i < writes.len() && #[trigger] writes[i].name == name ==> writes[i].value == value
}

/// A list of writes leaves a register with a plain number.
pub open spec fn leaves64(writes: Seq<RegisterWrite>, name: RegisterName, value: u64) -> bool {
    leaves(writes, name, RegisterValue::Reg64(value))
}

/// A list of writes leaves a register with a flat segment.
pub open spec fn leaves_segment(
    writes: Seq<RegisterWrite>,
    name: RegisterName,
    selector: u16,
    attributes: u16,
) -> bool {
    leaves(
        writes,
        name,
        RegisterValue::Segment(
            SegmentRegister { base: 0, limit: 0xfffff, selector, attributes },
        ),
    )
}

/// The call goes to this processor, in its own partition.
pub open spec fn goes_to<B>(call: RegisterCall, vcpu: &Vcpu<B>) -> bool {
    call.partition == vcpu.spec_partition() && call.vp_index == vcpu.spec_id()
}

/// Execution starts at `boot_ip`, whatever it is, with an empty stack and `rsi` at the zero page.
pub proof fn lemma_execution_starts_at_boot_ip<B>(
    vcpu: &Vcpu<B>,
    boot_ip: u64,
    call: RegisterCall,
)
    requires
        call_ensures(Vcpu::<B>::setup_regs, (vcpu, boot_ip), call),
    ensures
        goes_to(call, vcpu),
        call.writes.len() == 5,
        leaves64(call.writes@, RegisterName::Rip, boot_ip),
        leaves64(call.writes@, RegisterName::Rsp, 0x8ff0),
        leaves64(call.writes@, RegisterName::Rbp, 0x8ff0),
        leaves64(call.writes@, RegisterName::Rsi, 0x7000),
        leaves64(call.writes@, RegisterName::Rflags, 2),
{
    let writes = call.writes@;
    assert(writes[0].name == RegisterName::Rip);
    assert(writes[1].name == RegisterName::Rsp);
    assert(writes[2].name == RegisterName::Rbp);
    assert(writes[3].name == RegisterName::Rsi);
    assert(writes[4].name == RegisterName::Rflags);
}

/// The start address goes to `rip` alone: two start addresses leave `rip` as far apart as they are,
/// and every other register as it is with the other.
pub proof fn lemma_start_address_goes_to_rip<B>(
    vcpu: &Vcpu<B>,
    boot_ip: u64,
    call: RegisterCall,
    other_ip: u64,
    other: RegisterCall,
    i: int,
)
    requires
        call_ensures(Vcpu::<B>::setup_regs, (vcpu, boot_ip), call),
        call_ensures(Vcpu::<B>::setup_regs, (vcpu, other_ip), other),
        0 <= i < call.writes.len(),
    ensures
        call.writes.len() == other.writes.len(),
        call.writes[i].name == other.writes[i].name,
        !(call.writes[i].name is Rip) ==> call.writes[i].value == other.writes[i].value,
        call.writes[i].name is Rip ==> (call.writes[i].value matches RegisterValue::Reg64(rip)
            && other.writes[i].value matches RegisterValue::Reg64(other_rip) && rip - other_rip
            == boot_ip - other_ip),
{
    assert(i == 0 || i == 1 || i == 2 || i == 3 || i == 4);
}

/// A processor starts in long mode with paging on: code in a 64-bit segment, data in flat ones, the
/// tables where the boot code puts them.
pub proof fn lemma_processor_starts_in_long_mode<B>(vcpu: &Vcpu<B>, call: RegisterCall)
    requires
        call_ensures(Vcpu::<B>::setup_sregs, (vcpu,), call),
    ensures
        goes_to(call, vcpu),
        call.writes.len() == 13,
        leaves_segment(call.writes@, RegisterName::Cs, 0x8, 0xa9b),
        leaves_segment(call.writes@, RegisterName::Ds, 0x10, 0xc93),
        leaves_segment(call.writes@, RegisterName::Es, 0x10, 0xc93),
        leaves_segment(call.writes@, RegisterName::Fs, 0x10, 0xc93),
        leaves_segment(call.writes@, RegisterName::Gs, 0x10, 0xc93),
        leaves_segment(call.writes@, RegisterName::Ss, 0x10, 0xc93),
        leaves_segment(call.writes@, RegisterName::Tr, 0x18, 0x88b),
        leaves(
            call.writes@,
            RegisterName::Gdtr,
            RegisterValue::Table(TableRegister { limit: 31, base: 0x500 }),
        ),
        leaves(
            call.writes@,
            RegisterName::Idtr,
            RegisterValue::Table(TableRegister { limit: 7, base: 0x520 }),
        ),
        leaves64(call.writes@, RegisterName::Cr0, 0x8000_0001),
        leaves64(call.writes@, RegisterName::Cr3, 0x9000),
        leaves64(call.writes@, RegisterName::Cr4, 0x20),
        leaves64(call.writes@, RegisterName::Efer, 0x500),
{
    let writes = call.writes@;
    assert(writes[0].name == RegisterName::Cs);
    assert(writes[1].name == RegisterName::Ds);
    assert(writes[2].name == RegisterName::Es);
    assert(writes[3].name == RegisterName::Fs);
    assert(writes[4].name == RegisterName::Gs);
    assert(writes[5].name == RegisterName::Ss);
    assert(writes[6].name == RegisterName::Tr);
    assert(writes[7].name == RegisterName::Gdtr);
    assert(writes[8].name == RegisterName::Idtr);
    assert(writes[9].name == RegisterName::Cr0);
    assert(writes[10].name == RegisterName::Cr3);
    assert(writes[11].name == RegisterName::Cr4);
    assert(writes[12].name == RegisterName::Efer);
}

/// The floating point units start with every exception masked.
pub proof fn lemma_floating_point_starts_masked<B>(vcpu: &Vcpu<B>, call: RegisterCall)
    requires
        call_ensures(Vcpu::<B>::setup_fpu, (vcpu,), call),
    ensures
        goes_to(call, vcpu),
        call.writes.len() == 2,
        leaves(call.writes@, RegisterName::FpControlStatus, RegisterValue::FpControl(0x37f)),
        leaves(
            call.writes@,
            RegisterName::XmmControlStatus,
            RegisterValue::XmmStatusControl(0x1f80),
        ),
{
    let writes = call.writes@;
    assert(writes[0].name == RegisterName::FpControlStatus);
    assert(writes[1].name == RegisterName::XmmControlStatus);
}

/// Of the model-specific registers, the default memory type is write-back with range registers
/// enabled, and every other one that is set is zero.
pub proof fn lemma_model_specific_registers<B>(vcpu: &Vcpu<B>, call: RegisterCall, i: int)
    requires
        call_ensures(Vcpu::<B>::setup_msrs, (vcpu,), call),
        0 <= i < call.writes.len(),
    ensures
        goes_to(call, vcpu),
        call.writes.len() == 10,
        leaves64(call.writes@, RegisterName::MsrMtrrDefType, 0x806),
        call.writes[i].name is MsrMtrrDefType || call.writes[i].value == RegisterValue::Reg64(0),
        forall|j: int| 0 <= j < call.writes.len() && j != i ==> (#[trigger] call.writes[j]).name
            != call.writes[i].name,
{
    let writes = call.writes@;
    assert(writes[9].name == RegisterName::MsrMtrrDefType);
    assert(i == 0 || i == 1 || i == 2 || i == 3 || i == 4 || i == 5 || i == 6 || i == 7 || i == 8
        || i == 9);
    assert forall|j: int| 0 <= j < writes.len() && j != i implies (
    #[trigger] writes[j]).name != writes[i].name by {
        assert(j == 0 || j == 1 || j == 2 || j == 3 || j == 4 || j == 5 || j == 6 || j == 7 || j
            == 8 || j == 9);
    }
}

/// A call that sets registers carries the writes that it was made of to this processor.
pub proof fn lemma_register_call_carries_its_writes<B>(
    vcpu: &Vcpu<B>,
    writes: Vec<RegisterWrite>,
    call: RegisterCall,
)
    requires
        call_ensures(Vcpu::<B>::register_call, (vcpu, writes), call),
    ensures
        goes_to(call, vcpu),
        call.writes.len() == writes.len(),
        forall|i: int| 0 <= i < writes.len() ==> #[trigger] call.writes[i] == writes[i],
{
}

/// The bytes of the page tables lie in memory.
pub open spec fn has_page_tables(bytes: Map<int, u8>) -> bool {
    &&& forall|a: int| 0x9000 <= a < 0x9008 ==> #[trigger] bytes.contains_key(a)
    &&& forall|a: int| 0xa000 <= a < 0xa008 ==> #[trigger] bytes.contains_key(a)
    &&& forall|a: int| 0xb000 <= a < 0xc000 ==> #[trigger] bytes.contains_key(a)
}

/// The bytes of the GDT and the IDT lie in memory.
pub open spec fn has_gdt_idt(bytes: Map<int, u8>) -> bool {
    forall|a: int| 0x500 <= a < 0x528 ==> #[trigger] bytes.contains_key(a)
}

/// The page tables fit exactly if their bytes lie in memory.
proof fn lemma_page_tables_fit(bytes: Map<int, u8>)
    ensures
        all_fit(bytes, page_table_writes()) == has_page_tables(bytes),
{
    let writes = page_table_writes();
    if has_page_tables(bytes) {
        assert forall|i: int| 0 <= i < writes.len() implies fits(bytes, (#[trigger] writes[i]).0) by {}
    }
    if all_fit(bytes, writes) {
        assert(fits(bytes, writes[0].0));
        assert(fits(bytes, writes[1].0));
        assert forall|a: int| 0xb000 <= a < 0xc000 implies #[trigger] bytes.contains_key(a) by {
            let i = (a - 0xb000) / 8;
            assert(fits(bytes, writes[i + 2].0));
        }
    }
}

/// The GDT and the IDT fit exactly if their bytes lie in memory.
proof fn lemma_gdt_idt_fit(bytes: Map<int, u8>)
    ensures
        all_fit(bytes, gdt_idt_writes()) == has_gdt_idt(bytes),
{
    let writes = gdt_idt_writes();
    if has_gdt_idt(bytes) {
        assert forall|i: int| 0 <= i < writes.len() implies fits(bytes, (#[trigger] writes[i]).0) by {}
    }
    if all_fit(bytes, writes) {
        assert forall|a: int| 0x500 <= a < 0x528 implies #[trigger] bytes.contains_key(a) by {
            let i = (a - 0x500) / 8;
            assert(fits(bytes, writes[i].0));
        }
    }
}

/// Setting up the page tables succeeds exactly if their bytes lie in memory, and then every address
/// of the first GiB leads to itself, writable. Bytes outside the tables stay as they are in any
/// case.
pub proof fn lemma_page_tables_lead_to_themselves(
    mem: &mut GuestMemoryMmap<()>,
    r: Result<()>,
    va: int,
    a: int,
)
    requires
        call_ensures(setup_page_tables, (mem,), r),
        0 <= va < 0x4000_0000,
    ensures
        r is Ok <==> has_page_tables(guest_bytes(*old(mem))),
        r is Err ==> r == Err::<(), Error>(Error::WhpError(OsError { code: 0 })),
        r is Ok ==> translate(guest_bytes(*final(mem)), 0x9000, va) == Some(
            Mapping { addr: va, writable: true },
        ),
        guest_bytes(*old(mem)).contains_key(a) && !(0x9000 <= a < 0x9008) && !(0xa000 <= a
            < 0xa008) && !(0xb000 <= a < 0xc000) ==> guest_bytes(*final(mem)).contains_key(a)
            && guest_bytes(*final(mem))[a] == guest_bytes(*old(mem))[a],
        guest_regions(*final(mem)) == guest_regions(*old(mem)),
{
    let bytes = guest_bytes(*old(mem));
    lemma_page_tables_fit(bytes);
    if r is Ok {
        lemma_page_tables_identity_map(bytes, va);
    }
    if bytes.contains_key(a) && !(0x9000 <= a < 0x9008) && !(0xa000 <= a < 0xa008) && !(0xb000 <= a
        < 0xc000) {
        let writes = page_table_writes();
        assert forall|i: int| 0 <= i < writes.len() implies a < (#[trigger] writes[i]).0 || a
            >= writes[i].0 + 8 by {}
        lemma_store_all_frame(bytes, writes, a);
    }
}

/// Setting up the GDT and the IDT succeeds exactly if their bytes lie in memory, and then the null,
/// code, data and task state descriptors and an empty IDT are there. Bytes outside the tables stay
/// as they are in any case.
pub proof fn lemma_gdt_idt_are_there(mem: &mut GuestMemoryMmap<()>, r: Result<()>, a: int)
    requires
        call_ensures(setup_gdt_idt, (mem,), r),
    ensures
        r is Ok <==> has_gdt_idt(guest_bytes(*old(mem))),
        r is Err ==> r == Err::<(), Error>(Error::WhpError(OsError { code: 0 })),
        r is Ok ==> {
            let bytes = guest_bytes(*final(mem));
            &&& word_at(bytes, 0x500) == 0
            &&& word_at(bytes, 0x508) == 0x00af_9b00_0000_ffff
            &&& word_at(bytes, 0x510) == 0x00cf_9300_0000_ffff
            &&& word_at(bytes, 0x518) == 0x008f_8b00_0000_ffff
            &&& word_at(bytes, 0x520) == 0
        },
        guest_bytes(*old(mem)).contains_key(a) && !(0x500 <= a < 0x528) ==> guest_bytes(
            *final(mem),
        ).contains_key(a) && guest_bytes(*final(mem))[a] == guest_bytes(*old(mem))[a],
        guest_regions(*final(mem)) == guest_regions(*old(mem)),
{
    let bytes = guest_bytes(*old(mem));
    let writes = gdt_idt_writes();
    lemma_gdt_idt_fit(bytes);
    assert forall|i: int, j: int| 0 <= i < j < writes.len() implies (#[trigger] writes[i]).0 + 8 <= (
    #[trigger] writes[j]).0 by {}
    if r is Ok {
        lemma_word_of_store_all(bytes, writes, 0);
        lemma_word_of_store_all(bytes, writes, 1);
        lemma_word_of_store_all(bytes, writes, 2);
        lemma_word_of_store_all(bytes, writes, 3);
        lemma_word_of_store_all(bytes, writes, 4);
    }
    if bytes.contains_key(a) && !(0x500 <= a < 0x528) {
        assert forall|i: int| 0 <= i < writes.len() implies a < (#[trigger] writes[i]).0 || a
            >= writes[i].0 + 8 by {}
        lemma_store_all_frame(bytes, writes, a);
    }
}

/// A configured processor starts the kernel where it was told to: the four calls go to this
/// processor, segments and control registers first, then the general-purpose registers with `rip`
/// at the start address, then the floating point and the model-specific ones. What `cr3` refers to
/// maps the first GiB to itself if this is the first processor; any other one leaves memory alone
/// and cannot fail.
pub proof fn lemma_configured_processor_starts_the_kernel<B, T>(
    vcpu: &Vcpu<B>,
    mem: &mut GuestMemoryMmap<()>,
    kernel_start_addr: u64,
    config: &VcpuConfig<T>,
    r: Result<Vec<RegisterCall>>,
    va: int,
    a: int,
)
    requires
        call_ensures(Vcpu::<B>::configure_x86_64::<T>, (vcpu, mem, kernel_start_addr, config), r),
        0 <= va < 0x4000_0000,
    ensures
        vcpu.spec_id() != 0 ==> r is Ok && guest_bytes(*final(mem)) == guest_bytes(*old(mem)),
        vcpu.spec_id() == 0 ==> (r is Ok <==> has_page_tables(guest_bytes(*old(mem)))
            && has_gdt_idt(guest_bytes(*old(mem)))),
        r is Err ==> r == Err::<Vec<RegisterCall>, Error>(Error::WhpError(OsError { code: 0 })),
        r matches Ok(calls) ==> {
            &&& calls.len() == 4
            &&& forall|i: int| 0 <= i < 4 ==> goes_to(#[trigger] calls[i], vcpu)
            &&& leaves64(calls[0].writes@, RegisterName::Cr3, 0x9000)
            &&& leaves64(calls[0].writes@, RegisterName::Efer, 0x500)
            &&& leaves64(calls[1].writes@, RegisterName::Rip, kernel_start_addr)
            &&& leaves64(calls[1].writes@, RegisterName::Rsi, 0x7000)
            &&& leaves(
                calls[2].writes@,
                RegisterName::FpControlStatus,
                RegisterValue::FpControl(0x37f),
            )
            &&& leaves64(calls[3].writes@, RegisterName::MsrMtrrDefType, 0x806)
        },
        r is Ok && vcpu.spec_id() == 0 ==> translate(guest_bytes(*final(mem)), 0x9000, va) == Some(
            Mapping { addr: va, writable: true },
        ),
        guest_bytes(*old(mem)).contains_key(a) && !(0x500 <= a < 0x528) && !(0x9000 <= a < 0x9008)
            && !(0xa000 <= a < 0xa008) && !(0xb000 <= a < 0xc000) ==> guest_bytes(
            *final(mem),
        ).contains_key(a) && guest_bytes(*final(mem))[a] == guest_bytes(*old(mem))[a],
        guest_regions(*final(mem)) == guest_regions(*old(mem)),
{
    let bytes = guest_bytes(*old(mem));
    lemma_page_tables_fit(bytes);
    lemma_gdt_idt_fit(bytes);
    lemma_store_all_concat(bytes, page_table_writes(), gdt_idt_writes());
    lemma_store_all_keys(bytes, page_table_writes());
    let middle = store_all(bytes, page_table_writes());
    lemma_gdt_idt_fit(middle);
    assert(forall|b: int| bytes.contains_key(b) == #[trigger] middle.contains_key(b)) by {
        assert(forall|b: int| bytes.contains_key(b) == bytes.dom().contains(b));
        assert(forall|b: int| middle.contains_key(b) == middle.dom().contains(b));
    }
    assert(has_gdt_idt(middle) == has_gdt_idt(bytes)) by {
        if has_gdt_idt(middle) {
            assert forall|b: int| 0x500 <= b < 0x528 implies #[trigger] bytes.contains_key(b) by {
                assert(middle.contains_key(b));
            }
        }
        if has_gdt_idt(bytes) {
            assert forall|b: int| 0x500 <= b < 0x528 implies #[trigger] middle.contains_key(b) by {
                assert(bytes.contains_key(b));
            }
        }
    }
    if r is Ok {
        let calls = r->Ok_0;
        assert(calls[0]@ == vcpu.boot_calls(kernel_start_addr)[0]);
        assert(calls[1]@ == vcpu.boot_calls(kernel_start_addr)[1]);
        assert(calls[2]@ == vcpu.boot_calls(kernel_start_addr)[2]);
        assert(calls[3]@ == vcpu.boot_calls(kernel_start_addr)[3]);
        assert(calls[0].writes@[10].name == RegisterName::Cr3);
        assert(calls[0].writes@[12].name == RegisterName::Efer);
        assert(calls[1].writes@[0].name == RegisterName::Rip);
        assert(calls[1].writes@[3].name == RegisterName::Rsi);
        assert(calls[2].writes@[0].name == RegisterName::FpControlStatus);
        assert(calls[3].writes@[9].name == RegisterName::MsrMtrrDefType);
        if vcpu.spec_id() == 0 {
            lemma_boot_identity_map(bytes, va);
        }
    }
    if vcpu.spec_id() == 0 && bytes.contains_key(a) && !(0x500 <= a < 0x528) && !(0x9000 <= a
        < 0x9008) && !(0xa000 <= a < 0xa008) && !(0xb000 <= a < 0xc000) {
        lemma_boot_frame(bytes, a);
    }
}

/// A descriptor holds each part of what it was made of in its own place: the limit in bits 0 to 15
/// and 48 to 51, the base in bits 16 to 39 and 56 to 63, the access byte in bits 40 to 47 and the
/// granularity flags, the high nibble, in bits 52 to 55.
pub proof fn lemma_descriptor_places(flags: u16, base: u32, limit: u32, entry: u64)
    requires
        call_ensures(gdt_entry, (flags, base, limit), entry),
    ensures
        entry & 0xffff == limit & 0xffff,
        (entry >> 48) & 0xf == (limit >> 16) & 0xf,
        (entry >> 16) & 0xff_ffff == base & 0xff_ffff,
        entry >> 56 == base >> 24,
        (entry >> 40) & 0xff == flags & 0xff,
        (entry >> 52) & 0xf == flags >> 12,
{
    assert(entry & 0xffff == entry % 0x1_0000 && (entry >> 48) & 0xf == entry / 0x1_0000_0000_0000
        % 0x10 && (entry >> 16) & 0xff_ffff == entry / 0x1_0000 % 0x100_0000 && entry >> 56 == entry
        / 0x100_0000_0000_0000 && (entry >> 40) & 0xff == entry / 0x100_0000_0000 % 0x100 && (entry
        >> 52) & 0xf == entry / 0x10_0000_0000_0000 % 0x10) by (bit_vector);
    assert(limit & 0xffff == limit % 0x1_0000 && (limit >> 16) & 0xf == limit / 0x1_0000 % 0x10)
        by (bit_vector);
    assert(base & 0xff_ffff == base % 0x100_0000 && base >> 24 == base / 0x100_0000) by (bit_vector);
    assert(flags & 0xff == flags % 0x100 && flags >> 12 == flags / 0x1000) by (bit_vector);
}

/// A segment register holds the parts of any descriptor, each from its own place, and a selector of
/// eight for each entry of the table.
pub proof fn lemma_segment_places(entry: u64, table_index: u8, segment: SegmentRegister)
    requires
        call_ensures(whp_segment_from_gdt, (entry, table_index), segment),
    ensures
        segment.base & 0xff_ffff == (entry >> 16) & 0xff_ffff,
        segment.base >> 24 == entry >> 56,
        segment.limit & 0xffff == entry & 0xffff,
        segment.limit >> 16 == (entry >> 48) & 0xf,
        segment.attributes & 0xff == (entry >> 40) & 0xff,
        segment.attributes >> 8 == (entry >> 52) & 0xf,
        segment.selector == 8 * table_index,
{
    let (b, l, t) = (segment.base, segment.limit, segment.attributes);
    assert(entry & 0xffff == entry % 0x1_0000 && (entry >> 48) & 0xf == entry / 0x1_0000_0000_0000
        % 0x10 && (entry >> 16) & 0xff_ffff == entry / 0x1_0000 % 0x100_0000 && entry >> 56 == entry
        / 0x100_0000_0000_0000 && (entry >> 40) & 0xff == entry / 0x100_0000_0000 % 0x100 && (entry
        >> 52) & 0xf == entry / 0x10_0000_0000_0000 % 0x10) by (bit_vector);
    assert(b & 0xff_ffff == b % 0x100_0000 && b >> 24 == b / 0x100_0000) by (bit_vector);
    assert(l & 0xffff == l % 0x1_0000 && l >> 16 == l / 0x1_0000) by (bit_vector);
    assert(t & 0xff == t % 0x100 && t >> 8 == t / 0x100) by (bit_vector);
}

/// What a descriptor was made of is what loading it gives: the whole base, 20 bits of limit, the
/// access byte, and above it the granularity flags.
pub proof fn lemma_segment_gives_back_its_parts(
    flags: u16,
    base: u32,
    limit: u32,
    entry: u64,
    table_index: u8,
    segment: SegmentRegister,
)
    requires
        call_ensures(gdt_entry, (flags, base, limit), entry),
        call_ensures(whp_segment_from_gdt, (entry, table_index), segment),
    ensures
        segment.base == base,
        segment.limit == limit % 0x10_0000,
        segment.attributes % 0x100 == flags % 0x100,
        segment.attributes / 0x100 == flags / 0x1000,
        segment.selector == 8 * table_index,
{
    lemma_segment_of_descriptor(flags, base, limit, table_index);
}

/// A handle that is added, and that a wait then finds signalled, is reported as readable, with the
/// data that it was added with, however many handles there are. It is waited for in exactly one
/// place, and nothing else is reported.
pub proof fn lemma_signalled_handle_reports_its_data(
    epoll: &mut Epoll,
    fd: usize,
    event: EpollEvent,
    added: std::result::Result<(), IoError>,
    timeout: i32,
    step: WaitStep,
    result: u32,
    max_events: usize,
    events: &mut [EpollEvent],
    r: std::result::Result<usize, IoError>,
)
    ensures
        call_ensures(Epoll::ctl, (epoll, ControlOperation::Add, fd, &event), added)
            && call_ensures(Epoll::wait, (&*final(epoll), timeout), step) ==> (step
            matches WaitStep::Wait(request) && {
            &&& exists|i: int| 0 <= i < request.handles.len() && #[trigger] request.handles[i] == fd
            &&& forall|i: int, j: int|
                0 <= i < request.handles.len() && 0 <= j < request.handles.len()
                    && #[trigger] request.handles[i] == fd && #[trigger] request.handles[j] == fd
                    ==> i == j
            &&& call_ensures(WaitStep::complete, (&step, result, max_events, events), r) && result
                < request.handles.len() && request.handles[result as int] == fd && result != 258
                && max_events > 0 ==> {
                &&& r == Ok::<usize, IoError>(1)
                &&& final(events)@.len() == old(events)@.len()
                &&& old(events)@.len() > 0 ==> final(events)@[0].spec_data() == event.spec_data()
                    && final(events)@[0].spec_events() == 1
                &&& forall|i: int|
                    0 < i < old(events)@.len() ==> #[trigger] final(events)@[i] == old(events)@[i]
            }
        }),
{
    if call_ensures(Epoll::ctl, (epoll, ControlOperation::Add, fd, &event), added) && call_ensures(
        Epoll::wait,
        (&*final(epoll), timeout),
        step,
    ) {
        assert(final(epoll)@.contains_key(fd));
        assert(final(epoll)@.dom().contains(fd));
        assert(!final(epoll)@.dom().is_empty());
    }
}

/// What a wait reports belongs to the handle that was signalled: whatever is registered, the data
/// that comes back is the data of the registration of handle number `result`.
pub proof fn lemma_report_belongs_to_the_handle(
    epoll: &Epoll,
    timeout: i32,
    request: WaitRequest,
    result: u32,
    max_events: usize,
    events: &mut [EpollEvent],
    r: std::result::Result<usize, IoError>,
)
    requires
        call_ensures(Epoll::wait, (epoll, timeout), WaitStep::Wait(request)),
        call_ensures(WaitRequest::complete, (&request, result, max_events, events), r),
        r == Ok::<usize, IoError>(1),
        events@.len() > 0,
    ensures
        result < request.handles.len(),
        epoll@.contains_key(request.handles[result as int]),
        final(events)@[0].spec_data() == epoll@[request.handles[result as int]].spec_data(),
        final(events)@[0].spec_events() == 1,
{
    assert(epoll@.contains_key(request.handles[result as int]));
}

/// Two handles of one request are told apart: if the wait reports first the one and then the other,
/// the data of each comes back, so that equal data comes only from handles that were registered
/// with equal data.
pub proof fn lemma_handles_are_told_apart(
    request: WaitRequest,
    first: u32,
    second: u32,
    events: &mut [EpollEvent],
    r: std::result::Result<usize, IoError>,
    other_events: &mut [EpollEvent],
    other_r: std::result::Result<usize, IoError>,
)
    requires
        call_ensures(WaitRequest::complete, (&request, first, 1usize, events), r),
        call_ensures(WaitRequest::complete, (&request, second, 1usize, other_events), other_r),
        first < request.handles.len(),
        second < request.handles.len(),
        first != 258,
        second != 258,
        events@.len() > 0,
        other_events@.len() > 0,
    ensures
        r == Ok::<usize, IoError>(1) && other_r == Ok::<usize, IoError>(1),
        final(events)@[0].spec_data() == final(other_events)@[0].spec_data()
            <==> request.events[first as int].spec_data()
            == request.events[second as int].spec_data(),
{
}

/// What a wait comes back with: nothing on a timeout, where no event is asked for and where nothing
/// is registered, one event for a handle of the request, and else a failure. A list that nothing is
/// reported in stays as it is.
pub proof fn lemma_wait_comes_back(
    step: WaitStep,
    result: u32,
    max_events: usize,
    events: &mut [EpollEvent],
    r: std::result::Result<usize, IoError>,
)
    requires
        call_ensures(WaitStep::complete, (&step, result, max_events, events), r),
    ensures
        r is Err <==> (step matches WaitStep::Wait(request) && result != 258 && result
            >= request.handles.len()),
        r is Err ==> r == Err::<usize, IoError>(IoError::WaitForMultipleObjectsFailed),
        r matches Ok(count) ==> (count == 1 <==> step is Wait && result != 258 && max_events > 0),
        r matches Ok(count) ==> count <= 1,
        r != Ok::<usize, IoError>(1) ==> final(events)@ == old(events)@,
{
}

/// How long a wait lasts: a timeout that is not negative is kept to the millisecond, a negative one
/// is 3000 where there is something to wait for and no time at all where there is nothing.
pub proof fn lemma_wait_lasts(epoll: &Epoll, timeout: i32, step: WaitStep)
    requires
        call_ensures(Epoll::wait, (epoll, timeout), step),
    ensures
        step is Idle <==> epoll@ == Map::<usize, EpollEvent>::empty(),
        step matches WaitStep::Idle { sleep_ms } ==> (if timeout >= 0 {
            sleep_ms == timeout
        } else {
            sleep_ms == 0
        }),
        step matches WaitStep::Wait(request) ==> (if timeout >= 0 {
            request.timeout_ms == timeout
        } else {
            request.timeout_ms == 3000
        }),
{
    if epoll@.dom().is_empty() {
        assert(epoll@ =~= Map::<usize, EpollEvent>::empty());
    }
}

/// What an operation on a queue does: an added handle is registered with its event, a changed one
/// gets the new event if it was registered, and a deleted one is not registered any more. Every
/// other handle stays as it is.
pub proof fn lemma_control_changes_one_handle(
    epoll: &mut Epoll,
    operation: ControlOperation,
    fd: usize,
    event: EpollEvent,
    r: std::result::Result<(), IoError>,
    other: usize,
)
    requires
        call_ensures(Epoll::ctl, (epoll, operation, fd, &event), r),
    ensures
        r is Ok,
        operation is Add ==> final(epoll)@.contains_key(fd) && final(epoll)@[fd] == event,
        operation is Modify && old(epoll)@.contains_key(fd) ==> final(epoll)@.contains_key(fd)
            && final(epoll)@[fd] == event,
        operation is Modify && !old(epoll)@.contains_key(fd) ==> final(epoll)@ == old(epoll)@,
        operation is Delete ==> !final(epoll)@.contains_key(fd),
        other != fd ==> final(epoll)@.contains_key(other) == old(epoll)@.contains_key(other),
        other != fd && old(epoll)@.contains_key(other) ==> final(epoll)@[other]
            == old(epoll)@[other],
{
    if operation is Modify && !old(epoll)@.contains_key(fd) {
        assert(final(epoll)@ =~= old(epoll)@);
    }
}

/// An event gives back the kinds and the data that it was made of, and a set of kinds is made of
/// exactly the bits that stand for one.
pub proof fn lemma_event_gives_back_its_parts(
    bits: u32,
    set: Option<EventSet>,
    data: u64,
    event: EpollEvent,
    events: u32,
    given: u64,
    fd: usize,
)
    requires
        call_ensures(EventSet::from_bits, (bits,), set),
        set matches Some(set) ==> call_ensures(EpollEvent::new, (set, data), event),
        call_ensures(EpollEvent::events, (&event,), events),
        call_ensures(EpollEvent::data, (&event,), given),
        call_ensures(EpollEvent::fd, (&event,), fd),
    ensures
        set is Some <==> bits & !0b11111u32 == 0,
        set is Some ==> events == bits && given == data,
        set is Some && data <= usize::MAX ==> fd == data,
{
    assert((bits & !0b11111u32 == 0) == (bits < 32)) by (bit_vector);
}

/// A descriptor acts on the event that it was made with, and waits unless it was told not to.
pub proof fn lemma_descriptor_acts_on_its_event(
    flag: i32,
    handle: usize,
    fd: EventFd,
    v: u64,
    written: EventCall,
    waited: EventCall,
    result: u32,
    reset: std::result::Result<EventCall, IoError>,
)
    requires
        call_ensures(EventFd::new, (flag, Ok(handle)), Ok(fd)),
        call_ensures(EventFd::write, (&fd, v), written),
        call_ensures(EventFd::read, (&fd,), waited),
        call_ensures(EventFd::read_waited, (&fd, result), reset),
    ensures
        written == (EventCall::Signal { handle }),
        waited matches EventCall::Wait { handle: h, timeout } && h == handle && timeout == if flag
            & 1 == 1 {
            0u32
        } else {
            0xffff_ffff
        },
        reset is Ok <==> result == 0,
        reset matches Ok(call) ==> call == (EventCall::Reset { handle }),
        reset matches Err(e) ==> e == if flag & 1 == 1 {
            IoError::WouldBlock
        } else {
            IoError::WaitFailed
        },
{
    assert((flag & 1 != 0) == (flag & 1 == 1)) by (bit_vector);
}

/// A clone acts on the new handle as the descriptor acts on its own.
pub proof fn lemma_clone_acts_on_the_new_handle(
    fd: EventFd,
    duplicate: EventCall,
    handle: usize,
    clone: EventFd,
    written: EventCall,
    waited: EventCall,
    clone_waited: EventCall,
)
    requires
        call_ensures(EventFd::try_clone, (&fd,), duplicate),
        call_ensures(EventFd::try_clone_done, (&fd, Ok(handle)), Ok(clone)),
        call_ensures(EventFd::write, (&clone, 1u64), written),
        call_ensures(EventFd::read, (&fd,), waited),
        call_ensures(EventFd::read, (&clone,), clone_waited),
    ensures
        duplicate == (EventCall::Duplicate { handle: fd.handle() }),
        written == (EventCall::Signal { handle }),
        waited matches EventCall::Wait { handle: own, timeout } && own == fd.handle()
            && clone_waited == (EventCall::Wait { handle, timeout }),
{
}

/// The failure of a call on an event comes back with its own number, and a success as one.
pub proof fn lemma_event_failures_come_back(
    outcome: std::result::Result<(), OsError>,
    written: std::result::Result<(), IoError>,
    read: std::result::Result<u64, IoError>,
)
    requires
        call_ensures(EventFd::write_done, (outcome,), written),
        call_ensures(EventFd::read_reset, (outcome,), read),
    ensures
        outcome is Ok ==> written is Ok && read == Ok::<u64, IoError>(1),
        outcome matches Err(e) ==> written == Err::<(), IoError>(IoError::Os(e)) && read == Err::<
            u64,
            IoError,
        >(IoError::Os(e)),
{
}

/// An interrupt signals the event that it is given, whatever the line.
pub proof fn lemma_interrupt_signals_its_event(
    chip: &WhpIoapic,
    line: Option<u32>,
    evt: &EventFd,
    r: std::result::Result<EventCall, DeviceError>,
    written: EventCall,
)
    requires
        call_ensures(WhpIoapic::set_irq, (chip, line, Some(evt)), r),
        call_ensures(EventFd::write, (evt, 1u64), written),
    ensures
        r == Ok::<EventCall, DeviceError>(written),
        written == (EventCall::Signal { handle: evt.handle() }),
{
}

/// A virtual machine comes of three calls, all on the partition that the first one created, with one
/// processor; the first failure is what comes of the setup.
pub proof fn lemma_vm_holds_the_created_partition(
    nested_enabled: bool,
    first: VmSetup,
    partition: isize,
    second: VmSetup,
    counted: isize,
    third: VmSetup,
    set_up: isize,
    vm: Vm,
    handle: isize,
    call: VmSetup,
    e: OsError,
    failed: Result<VmProgress>,
)
    requires
        call_ensures(Vm::new, (nested_enabled,), first),
        call_ensures(VmSetup::advance, (first, Ok(partition)), Ok(VmProgress::Call(second))),
        call_ensures(VmSetup::advance, (second, Ok(counted)), Ok(VmProgress::Call(third))),
        call_ensures(VmSetup::advance, (third, Ok(set_up)), Ok(VmProgress::Ready(vm))),
        call_ensures(Vm::partition_handle, (&vm,), handle),
        call_ensures(VmSetup::advance, (call, Err(e)), failed),
    ensures
        first == VmSetup::CreatePartition,
        second == (VmSetup::SetProcessorCount { partition, count: 1 }),
        third == (VmSetup::SetupPartition { partition }),
        handle == partition,
        failed == Err::<VmProgress, Error>(Error::VmSetup(e)),
{
}

/// Guest memory is mapped region by region, in order, into the partition of the machine: range `i`
/// is region `i`, from where that region lies in this process, with full access. A byte of guest
/// memory lies in a range, and nothing else does.
pub proof fn lemma_memory_is_mapped_from_where_it_lies(
    vm: &Vm,
    mem: &GuestMemoryMmap<()>,
    ranges: Vec<GpaRange>,
    handle: isize,
    i: int,
    a: int,
)
    requires
        call_ensures(Vm::memory_init, (vm, mem), ranges),
        call_ensures(Vm::partition_handle, (vm,), handle),
        0 <= i < guest_regions(*mem).len(),
    ensures
        ranges.len() == guest_regions(*mem).len(),
        ranges[i].partition == handle,
        ranges[i].guest_addr == guest_regions(*mem)[i].0,
        ranges[i].size == guest_regions(*mem)[i].1,
        ranges[i].host_addr == host_addresses(*mem)[guest_regions(*mem)[i].0 as int],
        ranges[i].flags == 1 + 2 + 4,
        guest_bytes(*mem).contains_key(a) <==> exists|j: int|
            0 <= j < ranges.len() && #[trigger] ranges[j].guest_addr <= a < ranges[j].guest_addr
                + ranges[j].size,
{
    let range = ranges[i];
    if guest_bytes(*mem).contains_key(a) {
        let j = choose|j: int|
            0 <= j < ranges@.len() && #[trigger] ranges@[j].guest_addr <= a < ranges@[j].guest_addr
                + ranges@[j].size;
        assert(ranges[j].guest_addr <= a < ranges[j].guest_addr + ranges[j].size);
    }
    if exists|j: int|
        0 <= j < ranges.len() && #[trigger] ranges[j].guest_addr <= a < ranges[j].guest_addr
            + ranges[j].size {
        let j = choose|j: int|
            0 <= j < ranges.len() && #[trigger] ranges[j].guest_addr <= a < ranges[j].guest_addr
                + ranges[j].size;
        assert(ranges@[j].guest_addr <= a < ranges@[j].guest_addr + ranges@[j].size);
    }
}

/// A mapping is made of what it was asked for.
pub proof fn lemma_range_keeps_what_it_is_made_of(
    vm: &Vm,
    host_addr: usize,
    guest_addr: u64,
    size: u64,
    range: GpaRange,
)
    requires
        call_ensures(Vm::gpa_range, (vm, host_addr, guest_addr, size), range),
    ensures
        range.partition == vm.handle(),
        range.host_addr == host_addr,
        range.guest_addr == guest_addr,
        range.size == size,
        range.flags == 1 + 2 + 4,
{
}

/// One success is one step on, and a failure comes back with its own number: of a range that is
/// mapped, and of a batch of registers that is set.
pub proof fn lemma_lists_go_on_one_by_one(
    done: usize,
    outcome: std::result::Result<(), OsError>,
    mapped: Result<usize>,
    set: Result<usize>,
)
    requires
        call_ensures(Vm::range_mapped, (done, outcome), mapped),
        call_ensures(Vcpu::<u8>::registers_set, (done, outcome), set),
    ensures
        outcome is Ok ==> (mapped matches Ok(now) && now - done == 1),
        outcome is Ok ==> (set matches Ok(now) && now - done == 1),
        outcome matches Err(e) ==> mapped == Err::<usize, Error>(Error::SetUserMemoryRegion(e))
            && set == Err::<usize, Error>(Error::REGSConfiguration(e)),
{
}

/// A processor keeps the number, the partition and the buses that it was made with, is created and
/// run under that number, and a processor that cannot be created is an error with its own number.
pub proof fn lemma_processor_keeps_what_it_is_made_with<B>(
    id: u8,
    partition: isize,
    pio_bus: B,
    exit_evt: EventFd,
    create: CreateProcessor,
    vcpu: Vcpu<B>,
    index: u8,
    own_partition: isize,
    processor: ProcessorId,
    e: OsError,
    failed: Result<Vcpu<B>>,
)
    requires
        call_ensures(Vcpu::<B>::create_call, (id, partition), create),
        call_ensures(Vcpu::<B>::new_x86_64, (id, partition, pio_bus, exit_evt, Ok(())), Ok(vcpu)),
        call_ensures(Vcpu::<B>::cpu_index, (&vcpu,), index),
        call_ensures(Vcpu::<B>::partition, (&vcpu,), own_partition),
        call_ensures(Vcpu::<B>::processor, (&vcpu,), processor),
        call_ensures(Vcpu::<B>::new_x86_64, (id, partition, pio_bus, exit_evt, Err(e)), failed),
    ensures
        index == id,
        own_partition == partition,
        processor.partition == partition,
        processor.vp_index == id,
        create.processor == processor,
        create.flags == 0,
        vcpu.spec_pio_bus() == Some(pio_bus),
        vcpu.spec_mmio_bus() is None,
        failed == Err::<Vcpu<B>, Error>(Error::WhpError(e)),
{
}

/// A processor that leaves sends its own exit code, once, through the channel that its handle holds
/// the other end of, and then signals the event that it was made with.
pub proof fn lemma_leaving_tells_the_exit_code<B>(
    vcpu: &mut Vcpu<B>,
    handle: VcpuHandle,
    exit_code: u8,
    r: std::result::Result<EventCall, VcpuResponse>,
)
    requires
        call_ensures(Vcpu::<B>::exit, (vcpu, exit_code), r),
        vcpu.controlled_by(handle),
    ensures
        r matches Ok(call) ==> call == (EventCall::Signal {
            handle: old(vcpu).spec_exit_evt().handle(),
        }) && final(vcpu).responses() == old(vcpu).responses() + seq![
            VcpuResponse::Exited(exit_code),
        ],
        r matches Err(unsent) ==> unsent == VcpuResponse::Exited(exit_code)
            && final(vcpu).responses() == old(vcpu).responses(),
        final(vcpu).controlled_by(handle),
{
    if r is Ok {
        assert(final(vcpu).responses() =~= old(vcpu).responses() + seq![
            VcpuResponse::Exited(exit_code),
        ]);
    }
}

/// An event that is sent through a handle is the last one that went in, behind all that went in
/// before; one that cannot be sent comes back, and nothing went in.
pub proof fn lemma_events_go_in_one_by_one(
    handle: &mut VcpuHandle,
    event: VcpuEvent,
    r: std::result::Result<(), VcpuEvent>,
)
    requires
        call_ensures(VcpuHandle::send_event, (handle, event), r),
    ensures
        r is Ok ==> sent_events(final(handle).spec_event_sender()) == sent_events(
            old(handle).spec_event_sender(),
        ) + seq![event],
        r matches Err(unsent) ==> unsent == event && sent_events(final(handle).spec_event_sender())
            == sent_events(old(handle).spec_event_sender()),
{
    if r is Ok {
        assert(sent_events(final(handle).spec_event_sender()) =~= sent_events(
            old(handle).spec_event_sender(),
        ) + seq![event]);
    }
}

/// A thread holds the processor that entered its slot until that one leaves it.
pub proof fn lemma_slot_is_held_until_left(
    slot: &mut Option<usize>,
    vcpu: usize,
    entered: Result<()>,
    taken: &mut Option<usize>,
    other: usize,
    left: Result<()>,
)
    requires
        call_ensures(Vcpu::<u8>::init_thread_local_data, (slot, vcpu), entered),
        call_ensures(Vcpu::<u8>::reset_thread_local_data, (taken, other), left),
    ensures
        entered is Ok <==> *old(slot) is None,
        entered is Ok ==> *final(slot) == Some(vcpu),
        entered is Err ==> *final(slot) == *old(slot) && entered == Err::<(), Error>(
            Error::VcpuTlsInit,
        ),
        left is Ok <==> *old(taken) == Some(other),
        left is Ok ==> *final(taken) is None,
        left is Err ==> *final(taken) == *old(taken) && left == Err::<(), Error>(
            Error::VcpuTlsNotPresent,
        ),
{
}

/// The number that a row of decimal digits stands for.
pub open spec fn number(digits: Seq<char>) -> int
    decreases digits.len(),
{
    if digits.len() == 0 {
        0
    } else {
        10 * number(digits.drop_last()) + (digits.last() as int - '0' as int)
    }
}

/// Every character is a decimal digit.
pub open spec fn all_digits(digits: Seq<char>) -> bool {
    forall|i: int| 0 <= i < digits.len() ==> '0' <= #[trigger] digits[i] <= '9'
}

/// The decimal digits of a number stand for it.
proof fn lemma_number_of_decimal(n: nat)
    ensures
        number(decimal(n)) == n,
        all_digits(decimal(n)),
        decimal(n).len() > 0,
        n > 0 ==> decimal(n)[0] != '0',
        n == 0 ==> decimal(n) =~= seq!['0'],
    decreases n,
{
    reveal_with_fuel(number, 2);
    let d = n % 10;
    assert(digit(d) as int == '0' as int + d) by {
        assert(d == 0 || d == 1 || d == 2 || d == 3 || d == 4 || d == 5 || d == 6 || d == 7 || d
            == 8 || d == 9);
    }
    if n < 10 {
        assert(decimal(n) =~= seq![digit(n)]);
        assert(decimal(n).drop_last() =~= Seq::empty());
    } else {
        lemma_number_of_decimal(n / 10);
        assert(decimal(n).drop_last() =~= decimal(n / 10));
        assert(decimal(n)[0] == decimal(n / 10)[0]);
    }
}

/// The name of a thread ends in the decimal number of its processor, without zeroes in front.
pub proof fn lemma_thread_name_tells_the_number<B>(vcpu: &Vcpu<B>, name: String)
    requires
        call_ensures(Vcpu::<B>::thread_name, (vcpu,), name),
    ensures
        name@.len() > 8,
        name@.take(8) == "fc_vcpu "@,
        all_digits(name@.skip(8)),
        number(name@.skip(8)) == vcpu.spec_id(),
        vcpu.spec_id() > 0 ==> name@[8] != '0',
        vcpu.spec_id() == 0 ==> name@.len() == 9,
{
    reveal_strlit("fc_vcpu ");
    let digits = decimal(vcpu.spec_id() as nat);
    lemma_number_of_decimal(vcpu.spec_id() as nat);
    assert(name@.take(8) =~= "fc_vcpu "@);
    assert(name@.skip(8) =~= digits);
    assert(name@[8] == digits[0]);
}

/// Threads of different processors have different names.
pub proof fn lemma_thread_names_differ<B>(
    vcpu: &Vcpu<B>,
    name: String,
    other: &Vcpu<B>,
    other_name: String,
)
    requires
        call_ensures(Vcpu::<B>::thread_name, (vcpu,), name),
        call_ensures(Vcpu::<B>::thread_name, (other,), other_name),
    ensures
        name@ == other_name@ <==> vcpu.spec_id() == other.spec_id(),
{
    lemma_thread_name_tells_the_number(vcpu, name);
    lemma_thread_name_tells_the_number(other, other_name);
}

/// The error holds another error, whose text belongs to its own.
pub open spec fn has_detail(error: vstate::Error) -> bool {
    ||| error is GuestMemoryMmap
    ||| error is VmSetup
    ||| error is SetUserMemoryRegion
    ||| error is SignalVcpu
    ||| error is VcpuSpawn
    ||| error is WhpError
    ||| error is REGSConfiguration
}

/// The text of an error ends in the whole text of the error inside it, behind the same words
/// whatever that is, and where there is none inside it does not depend on one.
pub proof fn lemma_message_ends_in_the_detail(
    error: &vstate::Error,
    detail: &str,
    text: String,
    other: &str,
    other_text: String,
)
    requires
        call_ensures(vstate::Error::message, (error, detail), text),
        call_ensures(vstate::Error::message, (error, other), other_text),
    ensures
        has_detail(*error) ==> text@.len() - detail@.len() == other_text@.len() - other@.len() > 0
            && text@.skip(text@.len() - detail@.len()) == detail@ && text@.take(
            text@.len() - detail@.len(),
        ) == other_text@.take(text@.len() - detail@.len()),
        !has_detail(*error) ==> text@ == other_text@,
{
    reveal_strlit("Guest memory error: ");
    reveal_strlit("Cannot configure the microvm: ");
    reveal_strlit("Cannot set the memory regions: ");
    reveal_strlit("Failed to signal Vcpu: ");
    reveal_strlit("Cannot spawn a new vCPU thread: ");
    reveal_strlit("WHP error: ");
    reveal_strlit("Error configuring registers: ");
    if has_detail(*error) {
        assert(text@.skip(text@.len() - detail@.len()) =~= detail@);
        assert(text@.take(text@.len() - detail@.len()) =~= other_text@.take(
            text@.len() - detail@.len(),
        ));
    }
}

/// A failure of the system is told in the words of the system; no other failure depends on them.
pub proof fn lemma_system_failure_is_told_as_it_is(
    error: &IoError,
    detail: &str,
    text: String,
    other: &str,
    other_text: String,
    kind: IoErrorKind,
)
    requires
        call_ensures(IoError::message, (error, detail), text),
        call_ensures(IoError::message, (error, other), other_text),
        call_ensures(IoError::kind, (error,), kind),
    ensures
        *error is Os ==> text@ == detail@,
        !(*error is Os) ==> text@ == other_text@,
        kind == match *error {
            IoError::WouldBlock => IoErrorKind::WouldBlock,
            IoError::EventNotSetUp => IoErrorKind::NotFound,
            _ => IoErrorKind::Other,
        },
{
}

/// An error number is kept as it is: it comes back from the error that it was made into, and from
/// an error of `std::io` that was made of that.
pub proof fn lemma_error_number_is_kept(
    code: i32,
    err: errno::Error,
    given: i32,
    io: std::io::Error,
    back: errno::Error,
    back_code: i32,
)
    requires
        call_ensures(errno::Error::new, (code,), err),
        call_ensures(errno::Error::errno, (err,), given),
        call_ensures(<std::io::Error as From<errno::Error>>::from, (err,), io),
        call_ensures(<errno::Error as From<std::io::Error>>::from, (io,), back),
        call_ensures(errno::Error::errno, (back,), back_code),
    ensures
        given == code,
        back_code == code,
{
}

/// On Linux the one line ends in the major version and tells nothing of the minor one.
pub proof fn lemma_linux_line_ends_in_the_major_version(
    target_os: &str,
    major: &str,
    minor: &str,
    lines: Vec<String>,
)
    requires
        call_ensures(link_args, (target_os, major, minor), lines),
        target_os@ == "linux"@,
    ensures
        lines.len() == 1,
        lines[0]@ == "cargo:rustc-cdylib-link-arg=-Wl,-soname,libkrun.so."@ + major@,
{
    assert(lines[0]@ == link_arg_lines(target_os@, major@, minor@)[0]);
}

/// On macOS the first line names the library by its major version, is compatible from that version
/// on, and ends in the whole version; the second one names the framework of the hypervisor.
pub proof fn lemma_macos_lines_tell_the_version(
    target_os: &str,
    major: &str,
    minor: &str,
    lines: Vec<String>,
)
    requires
        call_ensures(link_args, (target_os, major, minor), lines),
        target_os@ == "macos"@,
    ensures
        lines.len() == 2,
        lines[0]@ == "cargo:rustc-cdylib-link-arg=-Wl,-install_name,libkrun."@ + (major@ + (
        ".dylib,-compatibility_version,"@ + (major@ + (".0.0,-current_version,"@ + (major@ + ("."@ + (
        minor@ + ".0"@))))))),
        lines[1]@ == "cargo:rustc-link-lib=framework=Hypervisor"@,
{
    reveal_strlit("linux");
    reveal_strlit("macos");
    assert("linux"@[0] != "macos"@[0]);
    assert(lines[0]@ == link_arg_lines(target_os@, major@, minor@)[0]);
    assert(lines[1]@ == link_arg_lines(target_os@, major@, minor@)[1]);
    assert(lines[0]@ =~= "cargo:rustc-cdylib-link-arg=-Wl,-install_name,libkrun."@ + (major@ + (
    ".dylib,-compatibility_version,"@ + (major@ + (".0.0,-current_version,"@ + (major@ + ("."@ + (
    minor@ + ".0"@))))))));
}

/// Elsewhere there is nothing to tell.
pub proof fn lemma_no_lines_elsewhere(
    target_os: &str,
    major: &str,
    minor: &str,
    lines: Vec<String>,
)
    requires
        call_ensures(link_args, (target_os, major, minor), lines),
        target_os@ != "linux"@,
        target_os@ != "macos"@,
    ensures
        lines.len() == 0,
{
}

/// The bus that was set last is the one that memory accesses go to; the one for ports stays.
pub proof fn lemma_bus_that_was_set_is_used<B>(
    vcpu: &mut Vcpu<B>,
    bus: B,
    set: (),
    mmio: Option<&B>,
    pio: Option<&B>,
)
    ensures
        call_ensures(Vcpu::<B>::set_mmio_bus, (vcpu, bus), set) && call_ensures(
            Vcpu::<B>::mmio_bus,
            (&*final(vcpu),),
            mmio,
        ) && call_ensures(Vcpu::<B>::pio_bus, (&*final(vcpu),), pio) ==> {
            &&& mmio matches Some(used) && *used == bus
            &&& match pio {
                Some(used) => old(vcpu).spec_pio_bus() == Some(*used),
                None => old(vcpu).spec_pio_bus() is None,
            }
            &&& final(vcpu).spec_id() == old(vcpu).spec_id()
            &&& final(vcpu).spec_partition() == old(vcpu).spec_partition()
        },
{
}

/// A processor that is parted from its handle is controlled by it: events go to the processor and
/// its responses come out of the handle. It stays the processor that it was.
pub proof fn lemma_new_processor_is_controlled_by_its_handle<B>(
    id: u8,
    partition: isize,
    pio_bus: B,
    exit_evt: EventFd,
    vcpu: Vcpu<B>,
    started: (Vcpu<B>, VcpuHandle),
)
    requires
        call_ensures(Vcpu::<B>::new_x86_64, (id, partition, pio_bus, exit_evt, Ok(())), Ok(vcpu)),
        call_ensures(Vcpu::<B>::start_threaded, (vcpu,), started),
    ensures
        started.0.controlled_by(started.1),
        started.0.spec_id() == id,
        started.0.spec_partition() == partition,
        started.0.spec_pio_bus() == Some(pio_bus),
        started.0.spec_exit_evt() == exit_evt,
        started.0.responses().len() == 0,
        sent_events(started.1.spec_event_sender()).len() == 0,
        event_capacity(started.1.spec_event_sender()) is None,
        response_capacity(started.0.spec_response_sender()) is None,
        call_requires(Vcpu::<B>::start_threaded, (vcpu,)),
{
}

/// A response that was sent is followed by the signal of the exit event; one that was not is handed
/// back as it is.
pub proof fn lemma_signal_follows_the_response<B>(
    vcpu: &Vcpu<B>,
    sent: std::result::Result<(), VcpuResponse>,
    r: std::result::Result<EventCall, VcpuResponse>,
    written: EventCall,
)
    requires
        call_ensures(Vcpu::<B>::exit_sent, (vcpu, sent), r),
        call_ensures(EventFd::write, (&vcpu.spec_exit_evt(), 1u64), written),
    ensures
        sent is Ok ==> r == Ok::<EventCall, VcpuResponse>(written),
        sent matches Err(unsent) ==> r == Err::<EventCall, VcpuResponse>(unsent),
{
}

/// A memory passes the test exactly if each of its regions holds a byte, and a memory that does can
/// be mapped, and written to by the first processor.
pub proof fn lemma_memory_that_can_be_used<B, T>(
    mem: &mut GuestMemoryMmap<()>,
    r: bool,
    vm: &Vm,
    vcpu: &Vcpu<B>,
    start: u64,
    config: &VcpuConfig<T>,
)
    requires
        call_ensures(has_nonempty_regions, (&*mem,), r),
    ensures
        r <==> forall|i: int|
            0 <= i < guest_regions(*old(mem)).len() ==> (#[trigger] guest_regions(*old(mem))[i]).1
                != 0,
        r ==> call_requires(Vm::memory_init, (vm, &*old(mem))),
        r ==> call_requires(setup_page_tables, (mem,)),
        r ==> call_requires(setup_gdt_idt, (mem,)),
        r || vcpu.spec_id() != 0 ==> call_requires(
            Vcpu::<B>::configure_x86_64::<T>,
            (vcpu, mem, start, config),
        ),
{
}

/// A clone of a queue waits for what the queue waits for.
pub proof fn lemma_clone_of_a_queue_waits_for_the_same(
    epoll: &Epoll,
    clone: Epoll,
    timeout: i32,
    step: WaitStep,
    fd: usize,
)
    requires
        call_ensures(<Epoll as Clone>::clone, (epoll,), clone),
        call_ensures(Epoll::wait, (&clone, timeout), step),
    ensures
        clone@ == epoll@,
        epoll@.contains_key(fd) ==> (step matches WaitStep::Wait(request) && exists|i: int|
            0 <= i < request.handles.len() && #[trigger] request.handles[i] == fd
                && request.events[i] == epoll@[fd]),
{
    if epoll@.contains_key(fd) {
        assert(clone@.contains_key(fd));
        assert(clone@.dom().contains(fd));
        assert(!clone@.dom().is_empty());
        let request = step->Wait_0;
        let i = choose|i: int| 0 <= i < request.handles.len() && #[trigger] request.handles[i] == fd;
        assert(request.events[i] == clone@[request.handles[i]]);
    }
}

} // verus!
