//! What the processor makes of the tables that the boot code puts into guest memory.

use crate::boot::{
    boot_gdt, gdt_idt_writes, page_table_writes, BOOT_GDT_OFFSET, BOOT_IDT_OFFSET, PDE_START,
    PDPTE_START, PML4_START,
};
use crate::gdt::{segment_of, SegmentRegister};
use crate::guest_mem::{
    all_fit, fits, lemma_same_fit, lemma_store_all_frame, lemma_store_all_keys,
    lemma_word_of_store_all, store_all, word_at,
};
use crate::registers::{boot_sregs, RegisterName, RegisterValue};
use vstd::prelude::*;

verus! {

/// Where a virtual address leads, and whether it may be written.
pub struct Mapping {
    pub addr: int,
    pub writable: bool,
}

/// Bit `P` of a page table entry: it refers to something.
pub open spec fn is_present(entry: int) -> bool {
    entry % 2 == 1
}

/// Bit `R/W` of a page table entry: what it refers to may be written.
pub open spec fn is_writable(entry: int) -> bool {
    entry / 2 % 2 == 1
}

/// Bit `PS` of a page table entry: it refers to a page, not to the next table.
pub open spec fn is_page(entry: int) -> bool {
    entry / 0x80 % 2 == 1
}

/// The page of 4 KiB that bits 12 to 51 of a page table entry, or of `cr3`, refer to.
pub open spec fn frame(entry: int) -> int {
    entry / 0x1000 % 0x100_0000_0000 * 0x1000
}

/// Entry `index` of the table at `table`, if it lies in memory and is present.
pub open spec fn table_entry(bytes: Map<int, u8>, table: int, index: int) -> Option<int> {
    let addr = table + index * 8;
    if 0 <= addr <= u64::MAX && fits(bytes, addr as u64) && is_present(word_at(bytes, addr)) {
        Some(word_at(bytes, addr))
    } else {
        None
    }
}

/// The four-level page walk of long mode, from the top level table that `cr3` refers to.
pub open spec fn translate(bytes: Map<int, u8>, cr3: int, va: int) -> Option<Mapping> {
    match table_entry(bytes, frame(cr3), va / 0x80_0000_0000 % 512) {
        None => None,
        Some(top) => match table_entry(bytes, frame(top), va / 0x4000_0000 % 512) {
            None => None,
            Some(upper) => if is_page(upper) {
                Some(
                    Mapping {
                        addr: upper / 0x4000_0000 % 0x40_0000 * 0x4000_0000 + va % 0x4000_0000,
                        writable: is_writable(top) && is_writable(upper),
                    },
                )
            } else {
                match table_entry(bytes, frame(upper), va / 0x20_0000 % 512) {
                    None => None,
                    Some(dir) => if is_page(dir) {
                        Some(
                            Mapping {
                                addr: dir / 0x20_0000 % 0x8000_0000 * 0x20_0000 + va % 0x20_0000,
                                writable: is_writable(top) && is_writable(upper) && is_writable(
                                    dir,
                                ),
                            },
                        )
                    } else {
                        match table_entry(bytes, frame(dir), va / 0x1000 % 512) {
                            None => None,
                            Some(page) => Some(
                                Mapping {
                                    addr: frame(page) + va % 0x1000,
                                    writable: is_writable(top) && is_writable(upper)
                                        && is_writable(dir) && is_writable(page),
                                },
                            ),
                        }
                    },
                }
            },
        },
    }
}

/// Everything that the boot code writes: the page tables, then the GDT and the IDT.
pub open spec fn boot_writes() -> Seq<(u64, u64)> {
    page_table_writes() + gdt_idt_writes()
}

/// Each word of the page tables is there once all of them have been written.
proof fn lemma_page_table_word(bytes: Map<int, u8>, i: int)
    requires
        all_fit(bytes, page_table_writes()),
        0 <= i < 514,
    ensures
        fits(store_all(bytes, page_table_writes()), page_table_writes()[i].0),
        word_at(store_all(bytes, page_table_writes()), page_table_writes()[i].0 as int)
            == page_table_writes()[i].1,
{
    let writes = page_table_writes();
    assert forall|j: int| i < j < writes.len() implies writes[i].0 + 8 <= (#[trigger] writes[j]).0
        || writes[j].0 + 8 <= writes[i].0 by {}
    lemma_word_of_store_all(bytes, writes, i);
    lemma_store_all_keys(bytes, writes);
    assert(fits(bytes, writes[i].0));
    lemma_same_fit(bytes, store_all(bytes, writes), writes[i].0);
}

/// Each word of the boot tables is there once all of them have been written.
proof fn lemma_boot_word(bytes: Map<int, u8>, i: int)
    requires
        all_fit(bytes, boot_writes()),
        0 <= i < 519,
    ensures
        boot_writes().len() == 519,
        fits(store_all(bytes, boot_writes()), boot_writes()[i].0),
        word_at(store_all(bytes, boot_writes()), boot_writes()[i].0 as int) == boot_writes()[i].1,
{
    let writes = boot_writes();
    assert forall|j: int| i < j < writes.len() implies writes[i].0 + 8 <= (#[trigger] writes[j]).0
        || writes[j].0 + 8 <= writes[i].0 by {}
    lemma_word_of_store_all(bytes, writes, i);
    lemma_store_all_keys(bytes, writes);
    assert(fits(bytes, writes[i].0));
    lemma_same_fit(bytes, store_all(bytes, writes), writes[i].0);
}

/// The indices that the walk takes for an address of the first GiB.
proof fn lemma_low_indices(va: int)
    requires
        0 <= va < 0x4000_0000,
    ensures
        va / 0x80_0000_0000 % 512 == 0,
        va / 0x4000_0000 % 512 == 0,
        va / 0x20_0000 % 512 == va / 0x20_0000,
{
}

/// What the entry of the page directory for an address of the first GiB says.
proof fn lemma_directory_entry(va: int, entry: int)
    requires
        0 <= va < 0x4000_0000,
        entry == va / 0x20_0000 * 0x20_0000 + 0x83,
    ensures
        is_present(entry),
        is_writable(entry),
        is_page(entry),
        entry / 0x20_0000 % 0x8000_0000 * 0x20_0000 + va % 0x20_0000 == va,
{
}

/// With the words of the boot page tables in place, the walk leads from an address of the first
/// GiB to itself.
proof fn lemma_identity_walk(after: Map<int, u8>, va: int)
    requires
        0 <= va < 0x4000_0000,
        fits(after, PML4_START),
        word_at(after, PML4_START as int) == PDPTE_START + 3,
        fits(after, PDPTE_START),
        word_at(after, PDPTE_START as int) == PDE_START + 3,
        fits(after, (PDE_START + va / 0x20_0000 * 8) as u64),
        word_at(after, PDE_START + va / 0x20_0000 * 8) == va / 0x20_0000 * 0x20_0000 + 0x83,
    ensures
        translate(after, PML4_START as int, va) == Some(Mapping { addr: va, writable: true }),
{
    let i = va / 0x20_0000;
    let dir = i * 0x20_0000 + 0x83;
    lemma_low_indices(va);
    lemma_directory_entry(va, dir);
    assert(frame(PML4_START as int) == PML4_START);
    assert(frame(0xa003) == PDPTE_START);
    assert(frame(0xb003) == PDE_START);
    assert(!is_page(0xb003) && is_writable(0xa003) && is_writable(0xb003));
    assert(table_entry(after, PML4_START as int, 0) == Some(0xa003int));
    assert(table_entry(after, PDPTE_START as int, 0) == Some(0xb003int));
    assert(table_entry(after, PDE_START as int, i) == Some(dir));
    lemma_walk_of_three(after, va, 0xa003, 0xb003, dir);
}

/// A walk that ends at a page of the page directory.
proof fn lemma_walk_of_three(bytes: Map<int, u8>, va: int, top: int, upper: int, dir: int)
    requires
        table_entry(bytes, frame(PML4_START as int), va / 0x80_0000_0000 % 512) == Some(top),
        table_entry(bytes, frame(top), va / 0x4000_0000 % 512) == Some(upper),
        !is_page(upper),
        table_entry(bytes, frame(upper), va / 0x20_0000 % 512) == Some(dir),
        is_page(dir),
    ensures
        translate(bytes, PML4_START as int, va) == Some(
            Mapping {
                addr: dir / 0x20_0000 % 0x8000_0000 * 0x20_0000 + va % 0x20_0000,
                writable: is_writable(top) && is_writable(upper) && is_writable(dir),
            },
        ),
{
}

/// The boot page tables map every address of the first GiB to itself, writable.
pub proof fn lemma_page_tables_identity_map(bytes: Map<int, u8>, va: int)
    requires
        all_fit(bytes, page_table_writes()),
        0 <= va < 0x4000_0000,
    ensures
        translate(store_all(bytes, page_table_writes()), PML4_START as int, va) == Some(
            Mapping { addr: va, writable: true },
        ),
{
    lemma_page_table_word(bytes, 0);
    lemma_page_table_word(bytes, 1);
    lemma_page_table_word(bytes, va / 0x20_0000 + 2);
    lemma_identity_walk(store_all(bytes, page_table_writes()), va);
}

/// The boot page tables still map every address of the first GiB to itself when the GDT and the
/// IDT have been written too.
pub proof fn lemma_boot_identity_map(bytes: Map<int, u8>, va: int)
    requires
        all_fit(bytes, boot_writes()),
        0 <= va < 0x4000_0000,
    ensures
        translate(store_all(bytes, boot_writes()), PML4_START as int, va) == Some(
            Mapping { addr: va, writable: true },
        ),
{
    lemma_boot_word(bytes, 0);
    lemma_boot_word(bytes, 1);
    lemma_boot_word(bytes, va / 0x20_0000 + 2);
    lemma_identity_walk(store_all(bytes, boot_writes()), va);
}

/// A word of zeroes that the page tables do not use stays one.
proof fn lemma_unused_word(bytes: Map<int, u8>, addr: int)
    requires
        forall|a: int|
            addr <= a < addr + 8 ==> #[trigger] bytes.contains_key(a) && bytes[a] == 0,
        PML4_START + 8 <= addr,
        addr + 8 <= PDPTE_START || PDPTE_START + 8 <= addr,
        addr + 8 <= PDE_START,
    ensures
        word_at(store_all(bytes, page_table_writes()), addr) == 0,
{
    let after = store_all(bytes, page_table_writes());
    assert forall|a: int| addr <= a < addr + 8 implies #[trigger] after[a] == 0 by {
        assert(bytes.contains_key(a));
        lemma_store_all_frame(bytes, page_table_writes(), a);
    }
}

/// The boot page tables map nothing beyond the first GiB, if the memory that they lie in held
/// zeroes.
pub proof fn lemma_page_tables_map_no_more(bytes: Map<int, u8>, va: int)
    requires
        forall|a: int|
            PML4_START <= a < PDE_START ==> #[trigger] bytes.contains_key(a) && bytes[a] == 0,
        all_fit(bytes, page_table_writes()),
        0x4000_0000 <= va < 0x1_0000_0000_0000,
    ensures
        translate(store_all(bytes, page_table_writes()), PML4_START as int, va) is None,
{
    let after = store_all(bytes, page_table_writes());
    let top = va / 0x80_0000_0000 % 512;
    assert(frame(PML4_START as int) == PML4_START);
    if top != 0 {
        lemma_unused_word(bytes, PML4_START + top * 8);
    } else {
        let upper = va / 0x4000_0000 % 512;
        assert(upper != 0);
        lemma_page_table_word(bytes, 0);
        assert(table_entry(after, PML4_START as int, 0) == Some(0xa003int));
        assert(frame(0xa003) == PDPTE_START);
        lemma_unused_word(bytes, PDPTE_START + upper * 8);
    }
}

/// The GDT and the IDT are found in memory where the boot code puts them, with the page tables
/// written before them.
pub proof fn lemma_gdt_idt_in_memory(bytes: Map<int, u8>)
    requires
        all_fit(bytes, boot_writes()),
    ensures
        forall|i: int|
            0 <= i < 4 ==> word_at(store_all(bytes, boot_writes()), BOOT_GDT_OFFSET + i * 8)
                == #[trigger] boot_gdt()[i],
        word_at(store_all(bytes, boot_writes()), BOOT_IDT_OFFSET as int) == 0,
{
    assert forall|i: int| 0 <= i < 4 implies word_at(
        store_all(bytes, boot_writes()),
        BOOT_GDT_OFFSET + i * 8,
    ) == #[trigger] boot_gdt()[i] by {
        lemma_boot_word(bytes, i + 514);
    }
    lemma_boot_word(bytes, 518);
}

/// Every segment register that is set at boot holds what loading its selector from the GDT in
/// memory gives, and the selector lies within the limit of the GDT register.
pub proof fn lemma_segments_match_gdt(bytes: Map<int, u8>, k: int, segment: SegmentRegister)
    requires
        all_fit(bytes, boot_writes()),
        0 <= k < boot_sregs().len(),
        boot_sregs()[k].value == RegisterValue::Segment(segment),
    ensures
        segment == segment_of(
            word_at(store_all(bytes, boot_writes()), BOOT_GDT_OFFSET + segment.selector) as u64,
            (segment.selector / 8) as u8,
        ),
        segment.selector + 7 <= 31,
        boot_sregs()[7].name == RegisterName::Gdtr,
        boot_sregs()[7].value matches RegisterValue::Table(gdtr) && gdtr.limit == 31 && gdtr.base
            == BOOT_GDT_OFFSET,
{
    lemma_gdt_idt_in_memory(bytes);
    assert(boot_gdt()[1] == boot_gdt()[1]);
    assert(boot_gdt()[2] == boot_gdt()[2]);
    assert(boot_gdt()[3] == boot_gdt()[3]);
}

/// Outside the tables, and whether or not they fit, the boot code leaves memory as it is.
pub proof fn lemma_boot_frame(bytes: Map<int, u8>, a: int)
    requires
        bytes.contains_key(a),
        !(BOOT_GDT_OFFSET <= a < BOOT_IDT_OFFSET + 8),
        !(PML4_START <= a < PML4_START + 8),
        !(PDPTE_START <= a < PDPTE_START + 8),
        !(PDE_START <= a < PDE_START + 0x1000),
    ensures
        store_all(bytes, boot_writes()).contains_key(a),
        store_all(bytes, boot_writes())[a] == bytes[a],
{
    let writes = boot_writes();
    assert forall|i: int| 0 <= i < writes.len() implies a < (#[trigger] writes[i]).0 || a
        >= writes[i].0 + 8 by {
        if i < 514 {
            assert(writes[i] == page_table_writes()[i]);
        } else {
            assert(writes[i] == gdt_idt_writes()[i - 514]);
        }
    }
    lemma_store_all_frame(bytes, writes, a);
}

} // verus!
