//! The tables that the first virtual processor finds in guest memory when it starts.

use crate::gdt::{descriptor, gdt_entry};
use crate::guest_mem::{
    all_fit, guest_bytes, guest_regions, host_addresses, lemma_store_next, lemma_store_stops,
    nonempty_regions, store_all, write_obj,
};
use crate::os::OsError;
use crate::vstate::{Error, Result};
use vm_memory::GuestMemoryMmap;
use vstd::prelude::*;

verus! {

pub const PML4_START: u64 = 0x9000;

pub const PDPTE_START: u64 = 0xa000;

pub const PDE_START: u64 = 0xb000;

pub const BOOT_GDT_OFFSET: u64 = 0x500;

pub const BOOT_IDT_OFFSET: u64 = 0x520;

/// The descriptors of the boot GDT: null, code, data and task state.
pub open spec fn boot_gdt() -> Seq<u64> {
    seq![
        descriptor(0, 0, 0) as u64,
        descriptor(0xa09b, 0, 0xfffff) as u64,
        descriptor(0xc093, 0, 0xfffff) as u64,
        descriptor(0x808b, 0, 0xfffff) as u64,
    ]
}

/// The words that make up the boot page tables: entry 0 of the top level refers to the next one,
/// entry 0 of that one to the directory, and the 512 entries of the directory map the pages of
/// 2 MiB from 0 on, present and writable.
pub open spec fn page_table_writes() -> Seq<(u64, u64)> {
    Seq::new(
        514,
        |i: int|
            if i == 0 {
                (PML4_START, (PDPTE_START + 3) as u64)
            } else if i == 1 {
                (PDPTE_START, (PDE_START + 3) as u64)
            } else {
                ((PDE_START + (i - 2) * 8) as u64, ((i - 2) * 0x20_0000 + 0x83) as u64)
            },
    )
}

/// The words that make up the boot GDT and, behind it, an IDT of one empty entry.
pub open spec fn gdt_idt_writes() -> Seq<(u64, u64)> {
    Seq::new(
        5,
        |i: int|
            if i < 4 {
                ((BOOT_GDT_OFFSET + i * 8) as u64, boot_gdt()[i])
            } else {
                (BOOT_IDT_OFFSET, 0)
            },
    )
}

/// What a list of writes leaves of guest memory, and what it comes back with.
pub open spec fn wrote(
    before: GuestMemoryMmap<()>,
    after: GuestMemoryMmap<()>,
    writes: Seq<(u64, u64)>,
    r: Result<()>,
) -> bool {
    &&& guest_regions(after) == guest_regions(before)
    &&& host_addresses(after) == host_addresses(before)
    &&& guest_bytes(after) == store_all(guest_bytes(before), writes)
    &&& if all_fit(guest_bytes(before), writes) {
        r is Ok
    } else {
        r == Err::<(), Error>(Error::WhpError(OsError { code: 0 }))
    }
}

/// Makes write number `n` of a list.
fn write_next(
    guest_mem: &mut GuestMemoryMmap<()>,
    val: u64,
    addr: u64,
    Ghost(before): Ghost<GuestMemoryMmap<()>>,
    Ghost(writes): Ghost<Seq<(u64, u64)>>,
    Ghost(n): Ghost<int>,
) -> (r: Result<()>)
    requires
        0 <= n < writes.len(),
        writes[n] == (addr, val),
        nonempty_regions(guest_regions(before)),
        guest_regions(*old(guest_mem)) == guest_regions(before),
        host_addresses(*old(guest_mem)) == host_addresses(before),
        guest_bytes(*old(guest_mem)) == store_all(guest_bytes(before), writes.take(n)),
        all_fit(guest_bytes(before), writes.take(n)),
    ensures
        wrote(before, *final(guest_mem), writes.take(n + 1), r),
        r is Err ==> wrote(before, *final(guest_mem), writes, r),
{
    proof {
        lemma_store_next(guest_bytes(before), writes, n);
    }
    match write_obj(guest_mem, val, addr) {
        Ok(()) => Ok(()),
        Err(_) => {
            proof {
                lemma_store_stops(guest_bytes(before), writes, n + 1);
            }
            Err(Error::WhpError(OsError::empty()))
        },
    }
}

/// Write page tables into guest memory: identity-map the first 1GB using 2MB pages.
pub fn setup_page_tables(guest_mem: &mut GuestMemoryMmap<()>) -> (r: Result<()>)
    requires
        nonempty_regions(guest_regions(*old(guest_mem))),
    ensures
        wrote(*old(guest_mem), *final(guest_mem), page_table_writes(), r),
{
    let ghost before = *guest_mem;
    let ghost writes = page_table_writes();
    assert(0xa000u64 | 0x03 == 0xa003 && 0xb000u64 | 0x03 == 0xb003) by (bit_vector);

    // PML4[0] -> PDPTE
    match write_next(
        guest_mem,
        PDPTE_START | 0x03u64,
        PML4_START,
        Ghost(before),
        Ghost(writes),
        Ghost(0),
    ) {
        Ok(()) => {},
        Err(e) => return Err(e),
    }

    // PDPTE[0] -> PDE
    match write_next(
        guest_mem,
        PDE_START | 0x03u64,
        PDPTE_START,
        Ghost(before),
        Ghost(writes),
        Ghost(1),
    ) {
        Ok(()) => {},
        Err(e) => return Err(e),
    }

    // 512 x 2MB pages covering [0..1GB)
    let mut i: u64 = 0;
    while i < 512
        invariant
            0 <= i <= 512,
            writes == page_table_writes(),
            nonempty_regions(guest_regions(before)),
            guest_regions(*guest_mem) == guest_regions(before),
            host_addresses(*guest_mem) == host_addresses(before),
            guest_bytes(*guest_mem) == store_all(guest_bytes(before), writes.take(i + 2)),
            all_fit(guest_bytes(before), writes.take(i + 2)),
            before == *old(guest_mem),
        decreases 512 - i,
    {
        assert((i << 21) | 0x83u64 == i * 0x20_0000 + 0x83) by (bit_vector)
            requires
                i < 512,
        ;
        match write_next(
            guest_mem,
            (i << 21) | 0x83u64,
            PDE_START + i * 8,
            Ghost(before),
            Ghost(writes),
            Ghost(i + 2),
        ) {
            Ok(()) => {},
            Err(e) => return Err(e),
        }
        i += 1;
    }
    assert(writes.take(514) =~= writes);
    Ok(())
}

/// Write GDT and IDT into guest memory.
pub fn setup_gdt_idt(guest_mem: &mut GuestMemoryMmap<()>) -> (r: Result<()>)
    requires
        nonempty_regions(guest_regions(*old(guest_mem))),
    ensures
        wrote(*old(guest_mem), *final(guest_mem), gdt_idt_writes(), r),
{
    let ghost before = *guest_mem;
    let ghost writes = gdt_idt_writes();

    // GDT entries: NULL, CODE (0xa09b), DATA (0xc093), TSS (0x808b)
    let gdt_table: [u64; 4] = [
        gdt_entry(0, 0, 0),
        gdt_entry(0xa09b, 0, 0xfffff),
        gdt_entry(0xc093, 0, 0xfffff),
        gdt_entry(0x808b, 0, 0xfffff),
    ];

    let mut i: usize = 0;
    while i < 4
        invariant
            0 <= i <= 4,
            writes == gdt_idt_writes(),
            gdt_table@ == boot_gdt(),
            nonempty_regions(guest_regions(before)),
            guest_regions(*guest_mem) == guest_regions(before),
            host_addresses(*guest_mem) == host_addresses(before),
            guest_bytes(*guest_mem) == store_all(guest_bytes(before), writes.take(i as int)),
            all_fit(guest_bytes(before), writes.take(i as int)),
            before == *old(guest_mem),
        decreases 4 - i,
    {
        match write_next(
            guest_mem,
            gdt_table[i],
            BOOT_GDT_OFFSET + (i as u64) * 8,
            Ghost(before),
            Ghost(writes),
            Ghost(i as int),
        ) {
            Ok(()) => {},
            Err(e) => return Err(e),
        }
        i += 1;
    }

    // IDT: zeroed
    let r = write_next(guest_mem, 0, BOOT_IDT_OFFSET, Ghost(before), Ghost(writes), Ghost(4));
    assert(writes.take(5) =~= writes);
    r
}

} // verus!
