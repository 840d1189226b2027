//! What a virtual processor does when the guest stops running.

use crate::guest_mem::le_byte;
use crate::os::OsError;
use crate::registers::{
    reg64, RegisterCall, RegisterCallView, RegisterName, RegisterValue, RegisterWrite,
};
use crate::vstate::{
    action_after, Error, Result, RunAction, Vcpu, FC_EXIT_CODE_GENERIC_ERROR, FC_EXIT_CODE_OK,
};
use vstd::prelude::*;

verus! {

/// An access of the guest to memory that is not mapped.
#[derive(Clone, Copy, Debug, PartialEq, Eq)]
pub struct MemoryAccess {
    pub gpa: u64,
    /// Bit 0 is set for a write.
    pub access_info: u32,
    pub instruction_byte_count: u8,
    pub instruction_bytes: [u8; 16],
}

/// An access of the guest to an I/O port.
#[derive(Clone, Copy, Debug, PartialEq, Eq)]
pub struct IoPortAccess {
    pub port: u16,
    /// Bit 0 is set for a write; bits 16 to 18 are the number of bytes.
    pub access_info: u32,
    pub rax: u64,
}

/// Why the guest stopped running.
#[derive(Clone, Copy, Debug, PartialEq, Eq)]
pub enum ExitReason {
    MemoryAccess(MemoryAccess),
    IoPortAccess(IoPortAccess),
    Halt,
    Canceled,
    Unspecified,
    Other(i32),
}

/// The state of a virtual processor on an exit.
#[derive(Clone, Copy, Debug, PartialEq, Eq)]
pub struct VpContext {
    /// The low four bits are the length of the instruction that the guest stopped at.
    pub bitfield: u8,
    pub rip: u64,
}

/// An exit of the guest.
#[derive(Clone, Copy, Debug, PartialEq, Eq)]
pub struct ExitContext {
    pub reason: ExitReason,
    pub vp: VpContext,
}

/// How a run of the guest has ended.
#[derive(Clone, Copy, Debug, PartialEq, Eq, Structural)]
pub enum VcpuEmulation {
    Handled,
    Stopped,
}

/// The bus that an access goes to.
#[derive(Clone, Copy, Debug, PartialEq, Eq, Structural)]
pub enum BusKind {
    Mmio,
    Pio,
}

/// An access to a bus. A read fills `data`; nothing becomes of what it read.
#[derive(Debug)]
pub struct BusAccess {
    pub bus: BusKind,
    pub vcpuid: u64,
    pub addr: u64,
    pub is_write: bool,
    pub data: Vec<u8>,
}

/// What is to be done about an exit: an access to a bus, then a new value for a register.
#[derive(Debug)]
pub struct Emulation {
    pub access: Option<BusAccess>,
    pub rip: Option<RegisterCall>,
    pub outcome: VcpuEmulation,
}

/// The contents of an access to a bus.
pub struct BusAccessView {
    pub bus: BusKind,
    pub vcpuid: u64,
    pub addr: u64,
    pub is_write: bool,
    pub data: Seq<u8>,
}

impl View for BusAccess {
    type V = BusAccessView;

    open spec fn view(&self) -> BusAccessView {
        BusAccessView {
            bus: self.bus,
            vcpuid: self.vcpuid,
            addr: self.addr,
            is_write: self.is_write,
            data: self.data@,
        }
    }
}

/// The contents of what is to be done about an exit.
pub struct EmulationView {
    pub access: Option<BusAccessView>,
    pub rip: Option<RegisterCallView>,
    pub outcome: VcpuEmulation,
}

impl View for Emulation {
    type V = EmulationView;

    open spec fn view(&self) -> EmulationView {
        EmulationView {
            access: match self.access {
                Some(access) => Some(access@),
                None => None,
            },
            rip: match self.rip {
                Some(call) => Some(call@),
                None => None,
            },
            outcome: self.outcome,
        }
    }
}

/// The length of the instruction that the guest stopped at.
pub open spec fn instruction_len(vp: VpContext) -> int {
    vp.bitfield as int % 16
}

/// The call that moves `rip` of the processor past the instruction, if there is one to move past.
/// It sets no other register.
pub open spec fn next_rip<B>(vcpu: Vcpu<B>, vp: VpContext) -> Option<RegisterCallView> {
    if instruction_len(vp) == 0 {
        None
    } else {
        Some(
            vcpu.spec_register_call(
                seq![reg64(RegisterName::Rip, (vp.rip + instruction_len(vp)) as u64)],
            ),
        )
    }
}

/// The access to the bus for memory-mapped registers: the data are the bytes of the instruction.
pub open spec fn mmio_access(vcpuid: u8, access: MemoryAccess) -> BusAccessView {
    BusAccessView {
        bus: BusKind::Mmio,
        vcpuid: vcpuid as u64,
        addr: access.gpa,
        is_write: access.access_info % 2 == 1,
        data: access.instruction_bytes@.take(access.instruction_byte_count as int),
    }
}

/// The access to the bus for I/O ports: a write has the low bytes of `rax` as its data, a read
/// starts from zeroes.
pub open spec fn pio_access(vcpuid: u8, access: IoPortAccess) -> BusAccessView {
    let is_write = access.access_info % 2 == 1;
    BusAccessView {
        bus: BusKind::Pio,
        vcpuid: vcpuid as u64,
        addr: access.port as u64,
        is_write,
        data: Seq::new(
            (access.access_info / 0x1_0000 % 8) as nat,
            |k: int|
                if is_write {
                    le_byte(access.rax, k)
                } else {
                    0
                },
        ),
    }
}

/// What a virtual processor does about the outcome of running the guest.
pub open spec fn emulate<B>(
    vcpu: Vcpu<B>,
    run: std::result::Result<ExitContext, OsError>,
) -> Result<EmulationView> {
    match run {
        Err(_) => Err(Error::VcpuRun),
        Ok(exit) => match exit.reason {
            ExitReason::MemoryAccess(access) => Ok(
                EmulationView {
                    access: if vcpu.spec_mmio_bus() is Some {
                        Some(mmio_access(vcpu.spec_id(), access))
                    } else {
                        None
                    },
                    rip: next_rip(vcpu, exit.vp),
                    outcome: VcpuEmulation::Handled,
                },
            ),
            ExitReason::IoPortAccess(access) => Ok(
                EmulationView {
                    access: if vcpu.spec_pio_bus() is Some {
                        Some(pio_access(vcpu.spec_id(), access))
                    } else {
                        None
                    },
                    rip: next_rip(vcpu, exit.vp),
                    outcome: VcpuEmulation::Handled,
                },
            ),
            ExitReason::Halt => Ok(
                EmulationView { access: None, rip: None, outcome: VcpuEmulation::Stopped },
            ),
            ExitReason::Canceled | ExitReason::Unspecified => Ok(
                EmulationView { access: None, rip: None, outcome: VcpuEmulation::Handled },
            ),
            ExitReason::Other(_) => Err(Error::VcpuUnhandledKvmExit),
        },
    }
}

/// The exit can be emulated: the bytes of the instruction are as many as there is room for, and
/// the next instruction has an address.
pub open spec fn can_emulate(exit: ExitContext) -> bool {
    match exit.reason {
        ExitReason::MemoryAccess(access) => access.instruction_byte_count <= 16 && exit.vp.rip
            + instruction_len(exit.vp) <= u64::MAX,
        ExitReason::IoPortAccess(_) => exit.vp.rip + instruction_len(exit.vp) <= u64::MAX,
        _ => true,
    }
}

/// Tells whether an exit can be emulated.
pub fn can_emulate_exit(exit: &ExitContext) -> (r: bool)
    ensures
        r == can_emulate(*exit),
        r <==> (exit.reason matches ExitReason::MemoryAccess(access)
            ==> access.instruction_byte_count <= 16) && (exit.reason is MemoryAccess
            || exit.reason is IoPortAccess ==> exit.vp.rip + exit.vp.bitfield % 16 <= u64::MAX),
{
    let bitfield: u8 = exit.vp.bitfield;
    let insn_len: u8 = bitfield & 0xF;
    assert(bitfield & 0xF == bitfield % 16) by (bit_vector);
    let has_next = exit.vp.rip <= u64::MAX - insn_len as u64;
    match exit.reason {
        ExitReason::MemoryAccess(access) => access.instruction_byte_count <= 16 && has_next,
        ExitReason::IoPortAccess(_) => has_next,
        _ => true,
    }
}

/// What one in byte `k` of a 64-bit number, counted from the least significant, stands for.
pub open spec fn byte_weight(k: int) -> int {
    seq![
        0x1,
        0x100,
        0x1_0000,
        0x100_0000,
        0x1_0000_0000,
        0x100_0000_0000,
        0x1_0000_0000_0000,
        0x100_0000_0000_0000int,
    ][k]
}

/// A byte of a number is what is left of it after division by the weight of the byte.
pub proof fn lemma_le_byte_weight(val: u64, k: int)
    requires
        0 <= k < 8,
    ensures
        le_byte(val, k) == val as int / byte_weight(k) % 0x100,
{
    if k == 0 {
        assert(byte_weight(0) == 0x1);
        assert(((val >> 0) & 0xff) as u8 == val / 0x1 % 0x100) by (bit_vector);
    } else if k == 1 {
        assert(byte_weight(1) == 0x100);
        assert(((val >> 8) & 0xff) as u8 == val / 0x100 % 0x100) by (bit_vector);
    } else if k == 2 {
        assert(byte_weight(2) == 0x1_0000);
        assert(((val >> 16) & 0xff) as u8 == val / 0x1_0000 % 0x100) by (bit_vector);
    } else if k == 3 {
        assert(byte_weight(3) == 0x100_0000);
        assert(((val >> 24) & 0xff) as u8 == val / 0x100_0000 % 0x100) by (bit_vector);
    } else if k == 4 {
        assert(byte_weight(4) == 0x1_0000_0000);
        assert(((val >> 32) & 0xff) as u8 == val / 0x1_0000_0000 % 0x100) by (bit_vector);
    } else if k == 5 {
        assert(byte_weight(5) == 0x100_0000_0000);
        assert(((val >> 40) & 0xff) as u8 == val / 0x100_0000_0000 % 0x100) by (bit_vector);
    } else if k == 6 {
        assert(byte_weight(6) == 0x1_0000_0000_0000);
        assert(((val >> 48) & 0xff) as u8 == val / 0x1_0000_0000_0000 % 0x100) by (bit_vector);
    } else if k == 7 {
        assert(byte_weight(7) == 0x100_0000_0000_0000);
        assert(((val >> 56) & 0xff) as u8 == val / 0x100_0000_0000_0000 % 0x100) by (bit_vector);
    }
}

/// The low `len` bytes of a value, least significant first.
fn low_bytes(val: u64, len: usize) -> (bytes: Vec<u8>)
    requires
        len <= 8,
    ensures
        bytes@ == Seq::new(len as nat, |k: int| le_byte(val, k)),
{
    let mut bytes: Vec<u8> = Vec::new();
    let mut i: usize = 0;
    while i < len
        invariant
            i <= len <= 8,
            bytes@ == Seq::new(i as nat, |k: int| le_byte(val, k)),
        decreases len - i,
    {
        let shift: u64 = 8 * i as u64;
        bytes.push(((val >> shift) & 0xff) as u8);
        assert(bytes@ =~= Seq::new((i + 1) as nat, |k: int| le_byte(val, k)));
        i += 1;
    }
    bytes
}

/// The first `len` of the bytes of an instruction.
fn first_bytes(bytes: &[u8; 16], len: usize) -> (r: Vec<u8>)
    requires
        len <= 16,
    ensures
        r@ == bytes@.take(len as int),
{
    let mut r: Vec<u8> = Vec::new();
    let mut i: usize = 0;
    while i < len
        invariant
            i <= len <= 16,
            r@ == bytes@.take(i as int),
        decreases len - i,
    {
        r.push(bytes[i]);
        assert(r@ =~= bytes@.take(i + 1));
        i += 1;
    }
    r
}

impl Emulation {
    /// How the run of the guest has ended, once the register has been set. Where there was none
    /// to set, `rip_set` is a success.
    pub fn finish(&self, rip_set: std::result::Result<(), OsError>) -> (r: Result<VcpuEmulation>)
        ensures
            match rip_set {
                Ok(()) => r == Ok::<VcpuEmulation, Error>(self.outcome),
                Err(e) => r == Err::<VcpuEmulation, Error>(Error::WhpError(e)),
            },
    {
        match rip_set {
            Ok(()) => Ok(self.outcome),
            Err(e) => Err(Error::WhpError(e)),
        }
    }
}

impl<B> Vcpu<B> {
    /// The call sets `rip` of this processor to `target`, and nothing else.
    pub open spec fn moves_rip(self, call: RegisterCall, target: int) -> bool {
        &&& call.partition == self.spec_partition()
        &&& call.vp_index == self.spec_id()
        &&& call.writes.len() == 1
        &&& call.writes[0].name == RegisterName::Rip
        &&& call.writes[0].value matches RegisterValue::Reg64(value) && value == target
    }

    /// Decides what to do about the outcome of running the guest. The access to the bus comes
    /// first, then the register; the outcome of setting the register goes to
    /// `Emulation::finish`.
    pub fn run_emulation(&self, run: std::result::Result<ExitContext, OsError>) -> (r: Result<
        Emulation,
    >)
        requires
            run matches Ok(exit) ==> can_emulate(exit),
        ensures
            match r {
                Ok(emulation) => emulate(*self, run) == Ok::<EmulationView, Error>(emulation@),
                Err(e) => emulate(*self, run) == Err::<EmulationView, Error>(e),
            },
            match run {
                Err(_) => r == Err::<Emulation, Error>(Error::VcpuRun),
                Ok(exit) => match exit.reason {
                    ExitReason::MemoryAccess(access) => r matches Ok(emulation) && {
                        &&& emulation.outcome == VcpuEmulation::Handled
                        &&& emulation.access is Some <==> self.spec_mmio_bus() is Some
                        &&& emulation.access matches Some(sent) ==> {
                            &&& sent.bus == BusKind::Mmio
                            &&& sent.vcpuid == self.spec_id()
                            &&& sent.addr == access.gpa
                            &&& sent.is_write <==> access.access_info % 2 == 1
                            &&& sent.data.len() == access.instruction_byte_count
                            &&& forall|k: int|
                                0 <= k < sent.data.len() ==> #[trigger] sent.data[k]
                                    == access.instruction_bytes[k]
                        }
                    },
                    ExitReason::IoPortAccess(access) => r matches Ok(emulation) && {
                        &&& emulation.outcome == VcpuEmulation::Handled
                        &&& emulation.access is Some <==> self.spec_pio_bus() is Some
                        &&& emulation.access matches Some(sent) ==> {
                            &&& sent.bus == BusKind::Pio
                            &&& sent.vcpuid == self.spec_id()
                            &&& sent.addr == access.port
                            &&& sent.is_write <==> access.access_info % 2 == 1
                            &&& sent.data.len() == access.access_info / 0x1_0000 % 8
                            &&& forall|k: int|
                                0 <= k < sent.data.len() ==> #[trigger] sent.data[k]
                                    == if access.access_info % 2 == 1 {
                                    access.rax as int / byte_weight(k) % 0x100
                                } else {
                                    0
                                }
                        }
                    },
                    ExitReason::Halt => r matches Ok(emulation) && emulation.access is None
                        && emulation.rip is None && emulation.outcome == VcpuEmulation::Stopped,
                    ExitReason::Canceled | ExitReason::Unspecified => r matches Ok(emulation)
                        && emulation.access is None && emulation.rip is None && emulation.outcome
                        == VcpuEmulation::Handled,
                    ExitReason::Other(_) => r == Err::<Emulation, Error>(
                        Error::VcpuUnhandledKvmExit,
                    ),
                },
            },
            run matches Ok(exit) ==> (exit.reason is MemoryAccess || exit.reason is IoPortAccess ==> (r
                matches Ok(emulation) && {
                &&& emulation.rip is None <==> exit.vp.bitfield % 16 == 0
                &&& emulation.rip matches Some(call) ==> self.moves_rip(
                    call,
                    exit.vp.rip + exit.vp.bitfield % 16,
                )
            })),
    {
        let exit = match run {
            Ok(exit) => exit,
            Err(_) => return Err(Error::VcpuRun),
        };
        match exit.reason {
            ExitReason::MemoryAccess(mem_access) => {
                let info: u32 = mem_access.access_info;
                let is_write = (info & 0x1) != 0;
                assert((info & 0x1 != 0) == (info % 2 == 1)) by (bit_vector);
                let access = if self.mmio_bus().is_some() {
                    Some(
                        BusAccess {
                            bus: BusKind::Mmio,
                            vcpuid: self.cpu_index() as u64,
                            addr: mem_access.gpa,
                            is_write,
                            data: first_bytes(
                                &mem_access.instruction_bytes,
                                mem_access.instruction_byte_count as usize,
                            ),
                        },
                    )
                } else {
                    None
                };
                // Advance RIP past the instruction - the hypervisor does not do so by itself
                let rip = self.advance_rip(&exit.vp);
                Ok(Emulation { access, rip, outcome: VcpuEmulation::Handled })
            },
            ExitReason::IoPortAccess(io_access) => {
                let info: u32 = io_access.access_info;
                let is_write = (info & 0x1) != 0;
                let access_size: usize = ((info >> 16) & 0x7) as usize;
                assert((info & 0x1 != 0) == (info % 2 == 1)) by (bit_vector);
                assert((info >> 16) & 0x7 == info / 0x1_0000 % 8) by (bit_vector);
                let access = if self.pio_bus().is_some() {
                    let value: u64 = if is_write { io_access.rax } else { 0 };
                    let data = low_bytes(value, access_size);
                    assert(forall|s: u64| #[trigger] (0u64 >> s) & 0xff == 0) by (bit_vector);
                    assert(data@ =~= pio_access(self.spec_id(), io_access).data);
                    assert forall|k: int| 0 <= k < data.len() implies #[trigger] data[k]
                        == if info % 2 == 1 {
                        io_access.rax as int / byte_weight(k) % 0x100
                    } else {
                        0
                    } by {
                        lemma_le_byte_weight(io_access.rax, k);
                    }
                    Some(
                        BusAccess {
                            bus: BusKind::Pio,
                            vcpuid: self.cpu_index() as u64,
                            addr: io_access.port as u64,
                            is_write,
                            data,
                        },
                    )
                } else {
                    None
                };
                // Advance RIP - the hypervisor does not do so by itself for port accesses either
                let rip = self.advance_rip(&exit.vp);
                Ok(Emulation { access, rip, outcome: VcpuEmulation::Handled })
            },
            ExitReason::Halt => Ok(
                Emulation { access: None, rip: None, outcome: VcpuEmulation::Stopped },
            ),
            ExitReason::Canceled => Ok(
                Emulation { access: None, rip: None, outcome: VcpuEmulation::Handled },
            ),
            ExitReason::Unspecified => Ok(
                Emulation { access: None, rip: None, outcome: VcpuEmulation::Handled },
            ),
            ExitReason::Other(_) => Err(Error::VcpuUnhandledKvmExit),
        }
    }

    /// Advance RIP past the current instruction.
    pub fn advance_rip(&self, vp: &VpContext) -> (call: Option<RegisterCall>)
        requires
            vp.rip + instruction_len(*vp) <= u64::MAX,
        ensures
            match call {
                Some(call) => next_rip(*self, *vp) == Some(call@),
                None => next_rip(*self, *vp) is None,
            },
            call is None <==> vp.bitfield % 16 == 0,
            call matches Some(call) ==> {
                &&& call.partition == self.spec_partition()
                &&& call.vp_index == self.spec_id()
                &&& call.writes.len() == 1
                &&& call.writes[0].name == RegisterName::Rip
                &&& call.writes[0].value matches RegisterValue::Reg64(value) && value == vp.rip
                    + vp.bitfield % 16
            },
    {
        // Instruction length is in the lower 4 bits of the bitfield
        let bitfield: u8 = vp.bitfield;
        let insn_len: u8 = bitfield & 0xF;
        assert(bitfield & 0xF == bitfield % 16) by (bit_vector);
        if insn_len == 0 {
            return None;
        }
        let rip: u64 = vp.rip + insn_len as u64;
        let writes = vec![
            RegisterWrite { name: RegisterName::Rip, value: RegisterValue::Reg64(rip) },
        ];
        assert(writes@ =~= seq![reg64(RegisterName::Rip, rip)]);
        Some(self.register_call(writes))
    }
}

/// What an exit of the guest means for the thread of the processor, if the register that it asks
/// for can be set: a halted guest leaves with success, an exit that is not known and a run that
/// failed leave with a generic error, and every other exit lets the guest run again.
pub proof fn lemma_action_after_exit<B>(
    vcpu: Vcpu<B>,
    run: std::result::Result<ExitContext, OsError>,
)
    ensures
        action_after(
            match emulate(vcpu, run) {
                Ok(emulation) => Ok(emulation.outcome),
                Err(e) => Err(e),
            },
        ) == match run {
            Err(_) => RunAction::Exit(FC_EXIT_CODE_GENERIC_ERROR),
            Ok(exit) => match exit.reason {
                ExitReason::Halt => RunAction::Exit(FC_EXIT_CODE_OK),
                ExitReason::Other(_) => RunAction::Exit(FC_EXIT_CODE_GENERIC_ERROR),
                _ => RunAction::Continue,
            },
        },
{
}

/// Only an access to memory or to a port moves `rip` or reaches a bus, and it does so for each
/// access past its instruction, on a write as on a read.
pub proof fn lemma_only_accesses_advance<B>(vcpu: Vcpu<B>, exit: ExitContext)
    requires
        !(exit.reason is Other),
    ensures
        emulate(vcpu, Ok(exit)) matches Ok(emulation) && emulation.rip == (if exit.reason
            is MemoryAccess || exit.reason is IoPortAccess {
            next_rip(vcpu, exit.vp)
        } else {
            None
        }) && (emulation.access is Some <==> (exit.reason is MemoryAccess
            && vcpu.spec_mmio_bus() is Some) || (exit.reason is IoPortAccess
            && vcpu.spec_pio_bus() is Some)),
{
}

} // verus!
