//! The register state in which a virtual processor starts.

use crate::boot::{boot_gdt, BOOT_GDT_OFFSET, BOOT_IDT_OFFSET, PML4_START};
use crate::gdt::{gdt_entry, segment_of, whp_segment_from_gdt, SegmentRegister};
use crate::vstate::Vcpu;
use vstd::prelude::*;

verus! {

/// The registers that are set at boot.
#[derive(Clone, Copy, Debug, PartialEq, Eq, Structural)]
pub enum RegisterName {
    Cs,
    Ds,
    Es,
    Fs,
    Gs,
    Ss,
    Tr,
    Gdtr,
    Idtr,
    Cr0,
    Cr3,
    Cr4,
    Efer,
    Rip,
    Rsp,
    Rbp,
    Rsi,
    Rflags,
    FpControlStatus,
    XmmControlStatus,
    Tsc,
    SysenterCs,
    SysenterEsp,
    SysenterEip,
    Star,
    Lstar,
    Cstar,
    Sfmask,
    KernelGsBase,
    MsrMtrrDefType,
}

/// A descriptor table register.
#[derive(Clone, Copy, Debug, PartialEq, Eq, Structural)]
pub struct TableRegister {
    pub limit: u16,
    pub base: u64,
}

/// A value for a register. What a variant does not hold is zero.
#[derive(Clone, Copy, Debug, PartialEq, Eq, Structural)]
pub enum RegisterValue {
    Segment(SegmentRegister),
    Table(TableRegister),
    Reg64(u64),
    /// The floating point control word.
    FpControl(u16),
    /// The SSE control and status word.
    XmmStatusControl(u32),
}

/// A register and the value that it is to get.
#[derive(Clone, Copy, Debug, PartialEq, Eq, Structural)]
pub struct RegisterWrite {
    pub name: RegisterName,
    pub value: RegisterValue,
}

/// A call that sets registers of one virtual processor, all at once.
#[derive(Debug, PartialEq, Eq)]
pub struct RegisterCall {
    pub partition: isize,
    pub vp_index: u32,
    pub writes: Vec<RegisterWrite>,
}

/// The contents of a call that sets registers.
pub struct RegisterCallView {
    pub partition: isize,
    pub vp_index: u32,
    pub writes: Seq<RegisterWrite>,
}

impl View for RegisterCall {
    type V = RegisterCallView;

    open spec fn view(&self) -> RegisterCallView {
        RegisterCallView {
            partition: self.partition,
            vp_index: self.vp_index,
            writes: self.writes@,
        }
    }
}

pub const X86_CR0_PE: u64 = 0x1;

pub const X86_CR0_PG: u64 = 0x8000_0000;

pub const X86_CR4_PAE: u64 = 0x20;

pub const EFER_LME: u64 = 0x100;

pub const EFER_LMA: u64 = 0x400;

pub const BOOT_STACK_POINTER: u64 = 0x8ff0;

pub const ZERO_PAGE_START: u64 = 0x7000;

/// MTRRdefType: enable MTRRs.
pub const MTRR_ENABLE: u64 = 0x800;

/// MTRRdefType: the default type is write-back.
pub const MTRR_WB: u64 = 0x6;

/// A write of a plain 64-bit value.
pub open spec fn reg64(name: RegisterName, value: u64) -> RegisterWrite {
    RegisterWrite { name, value: RegisterValue::Reg64(value) }
}

/// A write of the segment that entry `index` of the boot GDT describes.
pub open spec fn boot_segment(name: RegisterName, index: u8) -> RegisterWrite {
    RegisterWrite {
        name,
        value: RegisterValue::Segment(segment_of(boot_gdt()[index as int], index)),
    }
}

/// Segment and control registers: the segments of the boot GDT, the tables that the boot code
/// puts into memory, and long mode switched on.
pub open spec fn boot_sregs() -> Seq<RegisterWrite> {
    seq![
        boot_segment(RegisterName::Cs, 1),
        boot_segment(RegisterName::Ds, 2),
        boot_segment(RegisterName::Es, 2),
        boot_segment(RegisterName::Fs, 2),
        boot_segment(RegisterName::Gs, 2),
        boot_segment(RegisterName::Ss, 2),
        boot_segment(RegisterName::Tr, 3),
        RegisterWrite {
            name: RegisterName::Gdtr,
            value: RegisterValue::Table(TableRegister { limit: 31, base: BOOT_GDT_OFFSET }),
        },
        RegisterWrite {
            name: RegisterName::Idtr,
            value: RegisterValue::Table(TableRegister { limit: 7, base: BOOT_IDT_OFFSET }),
        },
        reg64(RegisterName::Cr0, 0x8000_0001),
        reg64(RegisterName::Cr3, PML4_START),
        reg64(RegisterName::Cr4, 0x20),
        reg64(RegisterName::Efer, 0x500),
    ]
}

/// General-purpose registers: execution starts at `boot_ip` with an empty stack, and `rsi`
/// points at the zero page.
pub open spec fn boot_regs(boot_ip: u64) -> Seq<RegisterWrite> {
    seq![
        reg64(RegisterName::Rip, boot_ip),
        reg64(RegisterName::Rsp, BOOT_STACK_POINTER),
        reg64(RegisterName::Rbp, BOOT_STACK_POINTER),
        reg64(RegisterName::Rsi, ZERO_PAGE_START),
        reg64(RegisterName::Rflags, 2),
    ]
}

/// Floating point state: every exception masked.
pub open spec fn boot_fpu() -> Seq<RegisterWrite> {
    seq![
        RegisterWrite {
            name: RegisterName::FpControlStatus,
            value: RegisterValue::FpControl(0x37f),
        },
        RegisterWrite {
            name: RegisterName::XmmControlStatus,
            value: RegisterValue::XmmStatusControl(0x1f80),
        },
    ]
}

/// Model-specific registers: all zero, but for write-back caching by default.
pub open spec fn boot_msrs() -> Seq<RegisterWrite> {
    seq![
        reg64(RegisterName::Tsc, 0),
        reg64(RegisterName::SysenterCs, 0),
        reg64(RegisterName::SysenterEsp, 0),
        reg64(RegisterName::SysenterEip, 0),
        reg64(RegisterName::Star, 0),
        reg64(RegisterName::Lstar, 0),
        reg64(RegisterName::Cstar, 0),
        reg64(RegisterName::Sfmask, 0),
        reg64(RegisterName::KernelGsBase, 0),
        reg64(RegisterName::MsrMtrrDefType, 0x806),
    ]
}

fn write64(name: RegisterName, value: u64) -> (r: RegisterWrite)
    ensures
        r == reg64(name, value),
{
    RegisterWrite { name, value: RegisterValue::Reg64(value) }
}

impl<B> Vcpu<B> {
    /// The call that makes the writes on this processor.
    pub open spec fn spec_register_call(self, writes: Seq<RegisterWrite>) -> RegisterCallView {
        RegisterCallView {
            partition: self.spec_partition(),
            vp_index: self.spec_id() as u32,
            writes,
        }
    }

    /// The call that makes the writes on this processor.
    pub fn register_call(&self, writes: Vec<RegisterWrite>) -> (call: RegisterCall)
        ensures
            call@ == self.spec_register_call(writes@),
            call.partition == self.spec_partition(),
            call.vp_index == self.spec_id(),
            call.writes@ == writes@,
    {
        RegisterCall { partition: self.partition(), vp_index: self.cpu_index() as u32, writes }
    }

    /// The call that sets segment and control registers.
    pub fn setup_sregs(&self) -> (call: RegisterCall)
        ensures
            call@ == self.spec_register_call(boot_sregs()),
            call.partition == self.spec_partition(),
            call.vp_index == self.spec_id(),
            call.writes.len() == 13,
            call.writes[0] == (RegisterWrite {
                name: RegisterName::Cs,
                value: RegisterValue::Segment(
                    SegmentRegister { base: 0, limit: 0xfffff, selector: 8, attributes: 0xa9b },
                ),
            }),
            call.writes[1] == (RegisterWrite {
                name: RegisterName::Ds,
                value: RegisterValue::Segment(
                    SegmentRegister { base: 0, limit: 0xfffff, selector: 16, attributes: 0xc93 },
                ),
            }),
            call.writes[2] == (RegisterWrite {
                name: RegisterName::Es,
                value: RegisterValue::Segment(
                    SegmentRegister { base: 0, limit: 0xfffff, selector: 16, attributes: 0xc93 },
                ),
            }),
            call.writes[3] == (RegisterWrite {
                name: RegisterName::Fs,
                value: RegisterValue::Segment(
                    SegmentRegister { base: 0, limit: 0xfffff, selector: 16, attributes: 0xc93 },
                ),
            }),
            call.writes[4] == (RegisterWrite {
                name: RegisterName::Gs,
                value: RegisterValue::Segment(
                    SegmentRegister { base: 0, limit: 0xfffff, selector: 16, attributes: 0xc93 },
                ),
            }),
            call.writes[5] == (RegisterWrite {
                name: RegisterName::Ss,
                value: RegisterValue::Segment(
                    SegmentRegister { base: 0, limit: 0xfffff, selector: 16, attributes: 0xc93 },
                ),
            }),
            call.writes[6] == (RegisterWrite {
                name: RegisterName::Tr,
                value: RegisterValue::Segment(
                    SegmentRegister { base: 0, limit: 0xfffff, selector: 24, attributes: 0x88b },
                ),
            }),
            call.writes[7] == (RegisterWrite {
                name: RegisterName::Gdtr,
                value: RegisterValue::Table(TableRegister { limit: 31, base: 0x500 }),
            }),
            call.writes[8] == (RegisterWrite {
                name: RegisterName::Idtr,
                value: RegisterValue::Table(TableRegister { limit: 7, base: 0x520 }),
            }),
            call.writes[9] == (RegisterWrite {
                name: RegisterName::Cr0,
                value: RegisterValue::Reg64(0x8000_0001),
            }),
            call.writes[10] == (RegisterWrite {
                name: RegisterName::Cr3,
                value: RegisterValue::Reg64(0x9000),
            }),
            call.writes[11] == (RegisterWrite {
                name: RegisterName::Cr4,
                value: RegisterValue::Reg64(0x20),
            }),
            call.writes[12] == (RegisterWrite {
                name: RegisterName::Efer,
                value: RegisterValue::Reg64(0x500),
            }),
    {
        // Build GDT entries to extract segment attributes
        let code_gdt: u64 = gdt_entry(0xa09b, 0, 0xfffff);
        let data_gdt: u64 = gdt_entry(0xc093, 0, 0xfffff);
        let tss_gdt: u64 = gdt_entry(0x808b, 0, 0xfffff);

        let code_seg = RegisterValue::Segment(whp_segment_from_gdt(code_gdt, 1));
        let data_seg = RegisterValue::Segment(whp_segment_from_gdt(data_gdt, 2));
        let tss_seg = RegisterValue::Segment(whp_segment_from_gdt(tss_gdt, 3));

        // 4 GDT entries
        let gdtr = RegisterValue::Table(TableRegister { limit: 4 * 8 - 1, base: BOOT_GDT_OFFSET });
        // One eight-byte IDT entry
        let idtr = RegisterValue::Table(TableRegister { limit: 7, base: BOOT_IDT_OFFSET });

        let cr0: u64 = X86_CR0_PE | X86_CR0_PG;
        let efer: u64 = EFER_LME | EFER_LMA;
        assert(0x1u64 | 0x8000_0000u64 == 0x8000_0001 && 0x100u64 | 0x400u64 == 0x500)
            by (bit_vector);

        let writes = vec![
            RegisterWrite { name: RegisterName::Cs, value: code_seg },
            RegisterWrite { name: RegisterName::Ds, value: data_seg },
            RegisterWrite { name: RegisterName::Es, value: data_seg },
            RegisterWrite { name: RegisterName::Fs, value: data_seg },
            RegisterWrite { name: RegisterName::Gs, value: data_seg },
            RegisterWrite { name: RegisterName::Ss, value: data_seg },
            RegisterWrite { name: RegisterName::Tr, value: tss_seg },
            RegisterWrite { name: RegisterName::Gdtr, value: gdtr },
            RegisterWrite { name: RegisterName::Idtr, value: idtr },
            write64(RegisterName::Cr0, cr0),
            write64(RegisterName::Cr3, PML4_START),
            write64(RegisterName::Cr4, X86_CR4_PAE),
            write64(RegisterName::Efer, efer),
        ];
        assert(writes@ =~= boot_sregs());
        self.register_call(writes)
    }

    /// The call that sets general-purpose registers.
    pub fn setup_regs(&self, boot_ip: u64) -> (call: RegisterCall)
        ensures
            call@ == self.spec_register_call(boot_regs(boot_ip)),
            call.partition == self.spec_partition(),
            call.vp_index == self.spec_id(),
            call.writes.len() == 5,
            call.writes[0] == (RegisterWrite {
                name: RegisterName::Rip,
                value: RegisterValue::Reg64(boot_ip),
            }),
            call.writes[1] == (RegisterWrite {
                name: RegisterName::Rsp,
                value: RegisterValue::Reg64(0x8ff0),
            }),
            call.writes[2] == (RegisterWrite {
                name: RegisterName::Rbp,
                value: RegisterValue::Reg64(0x8ff0),
            }),
            call.writes[3] == (RegisterWrite {
                name: RegisterName::Rsi,
                value: RegisterValue::Reg64(0x7000),
            }),
            call.writes[4] == (RegisterWrite {
                name: RegisterName::Rflags,
                value: RegisterValue::Reg64(2),
            }),
    {
        let writes = vec![
            write64(RegisterName::Rip, boot_ip),
            write64(RegisterName::Rsp, BOOT_STACK_POINTER),
            write64(RegisterName::Rbp, BOOT_STACK_POINTER),
            write64(RegisterName::Rsi, ZERO_PAGE_START),
            write64(RegisterName::Rflags, 2),
        ];
        assert(writes@ =~= boot_regs(boot_ip));
        self.register_call(writes)
    }

    /// The call that sets the floating point state.
    pub fn setup_fpu(&self) -> (call: RegisterCall)
        ensures
            call@ == self.spec_register_call(boot_fpu()),
            call.partition == self.spec_partition(),
            call.vp_index == self.spec_id(),
            call.writes.len() == 2,
            call.writes[0] == (RegisterWrite {
                name: RegisterName::FpControlStatus,
                value: RegisterValue::FpControl(0x37f),
            }),
            call.writes[1] == (RegisterWrite {
                name: RegisterName::XmmControlStatus,
                value: RegisterValue::XmmStatusControl(0x1f80),
            }),
    {
        let writes = vec![
            RegisterWrite {
                name: RegisterName::FpControlStatus,
                value: RegisterValue::FpControl(0x37f),
            },
            RegisterWrite {
                name: RegisterName::XmmControlStatus,
                value: RegisterValue::XmmStatusControl(0x1f80),
            },
        ];
        assert(writes@ =~= boot_fpu());
        self.register_call(writes)
    }

    /// The call that sets model-specific registers.
    pub fn setup_msrs(&self) -> (call: RegisterCall)
        ensures
            call@ == self.spec_register_call(boot_msrs()),
            call.partition == self.spec_partition(),
            call.vp_index == self.spec_id(),
            call.writes.len() == 10,
            call.writes[0] == (RegisterWrite {
                name: RegisterName::Tsc,
                value: RegisterValue::Reg64(0),
            }),
            call.writes[1] == (RegisterWrite {
                name: RegisterName::SysenterCs,
                value: RegisterValue::Reg64(0),
            }),
            call.writes[2] == (RegisterWrite {
                name: RegisterName::SysenterEsp,
                value: RegisterValue::Reg64(0),
            }),
            call.writes[3] == (RegisterWrite {
                name: RegisterName::SysenterEip,
                value: RegisterValue::Reg64(0),
            }),
            call.writes[4] == (RegisterWrite {
                name: RegisterName::Star,
                value: RegisterValue::Reg64(0),
            }),
            call.writes[5] == (RegisterWrite {
                name: RegisterName::Lstar,
                value: RegisterValue::Reg64(0),
            }),
            call.writes[6] == (RegisterWrite {
                name: RegisterName::Cstar,
                value: RegisterValue::Reg64(0),
            }),
            call.writes[7] == (RegisterWrite {
                name: RegisterName::Sfmask,
                value: RegisterValue::Reg64(0),
            }),
            call.writes[8] == (RegisterWrite {
                name: RegisterName::KernelGsBase,
                value: RegisterValue::Reg64(0),
            }),
            call.writes[9] == (RegisterWrite {
                name: RegisterName::MsrMtrrDefType,
                value: RegisterValue::Reg64(0x806),
            }),
    {
        let mtrr: u64 = MTRR_ENABLE | MTRR_WB;
        assert(0x800u64 | 0x6u64 == 0x806) by (bit_vector);
        let writes = vec![
            write64(RegisterName::Tsc, 0),
            write64(RegisterName::SysenterCs, 0),
            write64(RegisterName::SysenterEsp, 0),
            write64(RegisterName::SysenterEip, 0),
            write64(RegisterName::Star, 0),
            write64(RegisterName::Lstar, 0),
            write64(RegisterName::Cstar, 0),
            write64(RegisterName::Sfmask, 0),
            write64(RegisterName::KernelGsBase, 0),
            write64(RegisterName::MsrMtrrDefType, mtrr),
        ];
        assert(writes@ =~= boot_msrs());
        self.register_call(writes)
    }
}

} // verus!
