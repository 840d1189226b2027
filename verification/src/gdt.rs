//! x86 segment descriptors and the segment registers that are loaded from them.

use vstd::prelude::*;

verus! {

/// A segment register as the hypervisor takes it.
///
/// `attributes` holds the access rights of the segment: bits 0-3 the type, bit 4 S,
/// bits 5-6 DPL, bit 7 P, bit 8 AVL, bit 9 L, bit 10 D/B and bit 11 G.
#[derive(Clone, Copy, Debug, PartialEq, Eq, Structural)]
pub struct SegmentRegister {
    pub base: u64,
    pub limit: u32,
    pub selector: u16,
    pub attributes: u16,
}

/// The eight-byte segment descriptor with the given access `flags`, `base` and `limit`.
///
/// From the low end: 16 bits of limit, 24 bits of base, 8 bits of access rights, 4 more bits
/// of limit, 4 bits of granularity flags (the high nibble of `flags`) and 8 more bits of base.
pub open spec fn descriptor(flags: u16, base: u32, limit: u32) -> int {
    limit as int % 0x1_0000
        + (base as int % 0x100_0000) * 0x1_0000
        + (flags as int % 0x100) * 0x100_0000_0000
        + (limit as int / 0x1_0000 % 0x10) * 0x1_0000_0000_0000
        + (flags as int / 0x1000) * 0x10_0000_0000_0000
        + (base as int / 0x100_0000) * 0x100_0000_0000_0000
}

/// The 32-bit base address that a descriptor holds in two pieces.
pub open spec fn descriptor_base(entry: u64) -> int {
    entry as int / 0x1_0000 % 0x100_0000 + entry as int / 0x100_0000_0000_0000 * 0x100_0000
}

/// The 20-bit limit that a descriptor holds in two pieces.
pub open spec fn descriptor_limit(entry: u64) -> int {
    entry as int % 0x1_0000 + entry as int / 0x1_0000_0000_0000 % 0x10 * 0x1_0000
}

/// The access rights that a descriptor holds in two pieces: type, S, DPL and P in the low byte,
/// AVL, L, D/B and G in the nibble above it.
pub open spec fn descriptor_attributes(entry: u64) -> int {
    entry as int / 0x100_0000_0000 % 0x100 + entry as int / 0x10_0000_0000_0000 % 0x10 * 0x100
}

/// The register that results from loading the descriptor `entry`, found at `table_index`.
pub open spec fn segment_of(entry: u64, table_index: u8) -> SegmentRegister {
    SegmentRegister {
        base: descriptor_base(entry) as u64,
        limit: descriptor_limit(entry) as u32,
        selector: (table_index * 8) as u16,
        attributes: descriptor_attributes(entry) as u16,
    }
}

/// Construct a GDT entry from flags, base, and limit.
pub fn gdt_entry(flags: u16, base: u32, limit: u32) -> (entry: u64)
    ensures
        entry == descriptor(flags, base, limit),
        entry % 0x1_0000 == limit % 0x1_0000,
        entry / 0x1_0000 % 0x100_0000 == base % 0x100_0000,
        entry / 0x100_0000_0000 % 0x100 == flags % 0x100,
        entry / 0x1_0000_0000_0000 % 0x10 == limit / 0x1_0000 % 0x10,
        entry / 0x10_0000_0000_0000 % 0x10 == flags / 0x1000,
        entry / 0x100_0000_0000_0000 == base / 0x100_0000,
{
    let b: u64 = base as u64;
    let f: u64 = flags as u64;
    let l: u64 = limit as u64;
    let entry: u64 = ((b & 0xff00_0000u64) << 32)
        | ((f & 0x0000_f0ffu64) << 40)
        | ((l & 0x000f_0000u64) << 32)
        | ((b & 0x00ff_ffffu64) << 16)
        | (l & 0x0000_ffffu64);
    assert(entry == l % 0x1_0000
        + (b % 0x100_0000) * 0x1_0000
        + (f % 0x100) * 0x100_0000_0000
        + (l / 0x1_0000 % 0x10) * 0x1_0000_0000_0000
        + (f / 0x1000) * 0x10_0000_0000_0000
        + (b / 0x100_0000) * 0x100_0000_0000_0000) by (bit_vector)
        requires
            b <= 0xffff_ffff,
            f <= 0xffff,
            l <= 0xffff_ffff,
            entry == ((b & 0xff00_0000u64) << 32)
                | ((f & 0x0000_f0ffu64) << 40)
                | ((l & 0x000f_0000u64) << 32)
                | ((b & 0x00ff_ffffu64) << 16)
                | (l & 0x0000_ffffu64),
    ;
    assert(entry % 0x1_0000 == l % 0x1_0000
        && entry / 0x1_0000 % 0x100_0000 == b % 0x100_0000
        && entry / 0x100_0000_0000 % 0x100 == f % 0x100
        && entry / 0x1_0000_0000_0000 % 0x10 == l / 0x1_0000 % 0x10
        && entry / 0x10_0000_0000_0000 % 0x10 == f / 0x1000
        && entry / 0x100_0000_0000_0000 == b / 0x100_0000) by (bit_vector)
        requires
            b <= 0xffff_ffff,
            f <= 0xffff,
            l <= 0xffff_ffff,
            entry == ((b & 0xff00_0000u64) << 32)
                | ((f & 0x0000_f0ffu64) << 40)
                | ((l & 0x000f_0000u64) << 32)
                | ((b & 0x00ff_ffffu64) << 16)
                | (l & 0x0000_ffffu64),
    ;
    entry
}

/// Build a segment register from a GDT entry.
pub fn whp_segment_from_gdt(entry: u64, table_index: u8) -> (segment: SegmentRegister)
    ensures
        segment == segment_of(entry, table_index),
        segment.base == descriptor_base(entry),
        segment.limit == descriptor_limit(entry),
        segment.attributes == descriptor_attributes(entry),
        segment.selector == table_index * 8,
        segment.base % 0x100_0000 == entry / 0x1_0000 % 0x100_0000,
        segment.base / 0x100_0000 == entry / 0x100_0000_0000_0000,
        segment.limit % 0x1_0000 == entry % 0x1_0000,
        segment.limit / 0x1_0000 == entry / 0x1_0000_0000_0000 % 0x10,
        segment.attributes % 0x100 == entry / 0x100_0000_0000 % 0x100,
        segment.attributes / 0x100 == entry / 0x10_0000_0000_0000 % 0x10,
{
    let seg_type: u16 = ((entry & 0x0000_0F00_0000_0000) >> 40) as u16;
    let s: u16 = ((entry & 0x0000_1000_0000_0000) >> 44) as u16;
    let dpl: u16 = ((entry & 0x0000_6000_0000_0000) >> 45) as u16;
    let present: u16 = ((entry & 0x0000_8000_0000_0000) >> 47) as u16;
    let avl: u16 = ((entry & 0x0010_0000_0000_0000) >> 52) as u16;
    let l: u16 = ((entry & 0x0020_0000_0000_0000) >> 53) as u16;
    let db: u16 = ((entry & 0x0040_0000_0000_0000) >> 54) as u16;
    let g: u16 = ((entry & 0x0080_0000_0000_0000) >> 55) as u16;

    let attributes: u16 = seg_type | (s << 4) | (dpl << 5) | (present << 7) | (avl << 8) | (l << 9)
        | (db << 10) | (g << 11);
    assert(attributes == entry / 0x100_0000_0000 % 0x100
        + entry / 0x10_0000_0000_0000 % 0x10 * 0x100) by (bit_vector)
        requires
            seg_type == ((entry & 0x0000_0F00_0000_0000) >> 40) as u16,
            s == ((entry & 0x0000_1000_0000_0000) >> 44) as u16,
            dpl == ((entry & 0x0000_6000_0000_0000) >> 45) as u16,
            present == ((entry & 0x0000_8000_0000_0000) >> 47) as u16,
            avl == ((entry & 0x0010_0000_0000_0000) >> 52) as u16,
            l == ((entry & 0x0020_0000_0000_0000) >> 53) as u16,
            db == ((entry & 0x0040_0000_0000_0000) >> 54) as u16,
            g == ((entry & 0x0080_0000_0000_0000) >> 55) as u16,
            attributes == seg_type | (s << 4) | (dpl << 5) | (present << 7) | (avl << 8) | (l << 9)
                | (db << 10) | (g << 11),
    ;

    let base: u64 = ((entry & 0xFF00_0000_0000_0000) >> 32)
        | ((entry & 0x0000_00FF_0000_0000) >> 16)
        | ((entry & 0x0000_0000_FFFF_0000) >> 16);
    assert(base == entry / 0x1_0000 % 0x100_0000
        + entry / 0x100_0000_0000_0000 * 0x100_0000) by (bit_vector)
        requires
            base == ((entry & 0xFF00_0000_0000_0000) >> 32)
                | ((entry & 0x0000_00FF_0000_0000) >> 16)
                | ((entry & 0x0000_0000_FFFF_0000) >> 16),
    ;

    let limit: u32 = (((entry & 0x000F_0000_0000_0000) >> 32)
        | (entry & 0x0000_0000_0000_FFFF)) as u32;
    assert(limit == entry % 0x1_0000
        + entry / 0x1_0000_0000_0000 % 0x10 * 0x1_0000) by (bit_vector)
        requires
            limit == (((entry & 0x000F_0000_0000_0000) >> 32)
                | (entry & 0x0000_0000_0000_FFFF)) as u32,
    ;

    SegmentRegister { base, limit, selector: (table_index as u16) * 8, attributes }
}

/// Loading the descriptor made of `flags`, `base` and `limit` gives those back: the whole base,
/// the low 20 bits of the limit, and of the flags the low byte with the high nibble moved next
/// to it.
pub proof fn lemma_segment_of_descriptor(flags: u16, base: u32, limit: u32, table_index: u8)
    ensures
        0 <= descriptor(flags, base, limit) <= u64::MAX,
        segment_of(descriptor(flags, base, limit) as u64, table_index) == (SegmentRegister {
            base: base as u64,
            limit: limit % 0x10_0000,
            selector: (table_index * 8) as u16,
            attributes: (flags % 0x100 + flags / 0x1000 * 0x100) as u16,
        }),
{
    let entry = descriptor(flags, base, limit) as u64;
    let b = base as u64;
    let f = flags as u64;
    let l = limit as u64;
    assert(entry / 0x1_0000 % 0x100_0000 + entry / 0x100_0000_0000_0000 * 0x100_0000 == b
        && entry % 0x1_0000 + entry / 0x1_0000_0000_0000 % 0x10 * 0x1_0000 == l % 0x10_0000
        && entry / 0x100_0000_0000 % 0x100 + entry / 0x10_0000_0000_0000 % 0x10 * 0x100
            == f % 0x100 + f / 0x1000 * 0x100) by (bit_vector)
        requires
            b <= 0xffff_ffff,
            f <= 0xffff,
            l <= 0xffff_ffff,
            entry == l % 0x1_0000
                + (b % 0x100_0000) * 0x1_0000
                + (f % 0x100) * 0x100_0000_0000
                + (l / 0x1_0000 % 0x10) * 0x1_0000_0000_0000
                + (f / 0x1000) * 0x10_0000_0000_0000
                + (b / 0x100_0000) * 0x100_0000_0000_0000,
    ;
}

} // verus!
