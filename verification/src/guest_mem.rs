//! Guest physical memory: a model of its bytes, and the accesses that the boot code makes.

use vm_memory::{
    Address, Bytes, GuestAddress, GuestMemory, GuestMemoryError, GuestMemoryMmap,
    GuestMemoryRegion, Le64,
};
use vstd::prelude::*;

verus! {

/// The guest memory of `vm_memory`: a sorted list of disjoint regions, each mapped into this
/// process.
#[verifier::external_type_specification]
#[verifier::external_body]
#[verifier::reject_recursive_types(B)]
pub struct ExGuestMemoryMmap<B>(GuestMemoryMmap<B>);

/// What `vm_memory` reports when an access to guest memory fails.
#[verifier::external_type_specification]
#[verifier::external_body]
pub struct ExGuestMemoryError(GuestMemoryError);

/// The start address and the length of each region of the memory, in order.
pub uninterp spec fn guest_regions(mem: GuestMemoryMmap<()>) -> Seq<(u64, u64)>;

/// The bytes of the memory by guest physical address, as the writes through this handle leave
/// them.
///
/// A clone of the handle shares the memory, and so does the guest once it runs. What they write,
/// and what becomes visible at a second address where two regions are backed by one file, is not
/// part of it.
pub uninterp spec fn guest_bytes(mem: GuestMemoryMmap<()>) -> Map<int, u8>;

/// The address in this process at which each guest physical address of the memory can be found: the
/// place in the mapping of its region. The mappings are part of the memory and stay where they are.
pub uninterp spec fn host_addresses(mem: GuestMemoryMmap<()>) -> Map<int, usize>;

/// Some region holds the address `addr`.
pub open spec fn covered(regions: Seq<(u64, u64)>, addr: int) -> bool {
    exists|i: int|
        0 <= i < regions.len() && #[trigger] regions[i].0 <= addr < regions[i].0 + regions[i].1
}

/// No region is empty.
pub open spec fn nonempty_regions(regions: Seq<(u64, u64)>) -> bool {
    forall|i: int| 0 <= i < regions.len() ==> (#[trigger] regions[i]).1 > 0
}

/// Byte `k` of `val`, counted from the least significant.
pub open spec fn le_byte(val: u64, k: int) -> u8 {
    ((val >> ((8 * k) as u64)) & 0xff) as u8
}

/// Eight bytes from `addr` on lie in the memory.
pub open spec fn fits(bytes: Map<int, u8>, addr: u64) -> bool {
    forall|a: int| addr <= a < addr + 8 ==> #[trigger] bytes.contains_key(a)
}

/// The memory after a write of `val` at `addr`, least significant byte first. A write that runs
/// into a hole stops there.
pub open spec fn store(bytes: Map<int, u8>, addr: u64, val: u64) -> Map<int, u8> {
    Map::new(
        |a: int| bytes.contains_key(a),
        |a: int|
            if addr <= a < addr + 8 && (forall|b: int|
                addr <= b <= a ==> #[trigger] bytes.contains_key(b)) {
                le_byte(val, a - addr)
            } else {
                bytes[a]
            },
    )
}

/// Every one of the writes lies in the memory.
pub open spec fn all_fit(bytes: Map<int, u8>, writes: Seq<(u64, u64)>) -> bool {
    forall|i: int| 0 <= i < writes.len() ==> fits(bytes, (#[trigger] writes[i]).0)
}

/// The memory after the writes, each an address and a value, in order. The first one that does
/// not fit is the last one made.
pub open spec fn store_all(bytes: Map<int, u8>, writes: Seq<(u64, u64)>) -> Map<int, u8>
    decreases writes.len(),
{
    if writes.len() == 0 {
        bytes
    } else {
        let before = store_all(bytes, writes.drop_last());
        if all_fit(bytes, writes.drop_last()) {
            store(before, writes.last().0, writes.last().1)
        } else {
            before
        }
    }
}

/// The little-endian 64-bit word at `addr`.
pub open spec fn word_at(bytes: Map<int, u8>, addr: int) -> int {
    bytes[addr] + bytes[addr + 1] * 0x100 + bytes[addr + 2] * 0x1_0000
        + bytes[addr + 3] * 0x100_0000 + bytes[addr + 4] * 0x1_0000_0000
        + bytes[addr + 5] * 0x100_0000_0000 + bytes[addr + 6] * 0x1_0000_0000_0000
        + bytes[addr + 7] * 0x100_0000_0000_0000
}

/// The start address and the length of every region: `GuestMemory::iter`, with
/// `GuestMemoryRegion::start_addr` and `GuestMemoryRegion::len` of each item.
///
/// The iterator walks the regions in the order in which the memory keeps them, and the memory
/// holds an address exactly if one of them covers it.
#[verifier::external_body]
pub(crate) fn regions(mem: &GuestMemoryMmap<()>) -> (regions: Vec<(u64, u64)>)
    ensures
        regions@ == guest_regions(*mem),
        forall|a: int|
            guest_bytes(*mem).contains_key(a) <==> #[trigger] covered(regions@, a),
{
    mem.iter().map(|region| (region.start_addr().raw_value(), region.len())).collect()
}

/// Writes a little-endian word into guest memory: `Bytes::write_obj` with a `Le64`.
///
/// It succeeds exactly if all eight bytes lie in the memory. Otherwise the bytes up to the first
/// hole have been written all the same. The regions and their mappings stay as they are. Looking
/// up an address panics where a region is empty, so that is ruled out.
#[verifier::external_body]
pub(crate) fn write_obj(mem: &mut GuestMemoryMmap<()>, val: u64, addr: u64) -> (r: Result<
    (),
    GuestMemoryError,
>)
    requires
        nonempty_regions(guest_regions(*old(mem))),
    ensures
        guest_regions(*final(mem)) == guest_regions(*old(mem)),
        host_addresses(*final(mem)) == host_addresses(*old(mem)),
        guest_bytes(*final(mem)) == store(guest_bytes(*old(mem)), addr, val),
        r is Ok <==> fits(guest_bytes(*old(mem)), addr),
{
    mem.write_obj(Le64::from(val), GuestAddress(addr))
}

/// The address in this process of the guest address `addr`: `GuestMemory::get_host_address`.
///
/// There is one exactly if the memory holds the address. It is the address that the memory has for
/// it; where the system has put the mappings is not said. Looking up an address panics where a
/// region is empty, so that is ruled out.
#[verifier::external_body]
pub(crate) fn get_host_address(mem: &GuestMemoryMmap<()>, addr: u64) -> (r: Result<
    usize,
    GuestMemoryError,
>)
    requires
        nonempty_regions(guest_regions(*mem)),
    ensures
        r is Ok <==> guest_bytes(*mem).contains_key(addr as int),
        r matches Ok(host) ==> host == host_addresses(*mem)[addr as int],
{
    mem.get_host_address(GuestAddress(addr)).map(|host| host as usize)
}

/// Tells whether every region of the memory holds at least one byte.
pub fn has_nonempty_regions(mem: &GuestMemoryMmap<()>) -> (r: bool)
    ensures
        r == nonempty_regions(guest_regions(*mem)),
        r <==> forall|i: int|
            0 <= i < guest_regions(*mem).len() ==> (#[trigger] guest_regions(*mem)[i]).1 >= 1,
{
    let regions = regions(mem);
    let mut i: usize = 0;
    while i < regions.len()
        invariant
            i <= regions.len(),
            forall|j: int| 0 <= j < i ==> (#[trigger] regions@[j]).1 > 0,
            regions@ == guest_regions(*mem),
        decreases regions.len() - i,
    {
        if regions[i].1 == 0 {
            assert(regions@[i as int].1 == 0);
            return false;
        }
        i += 1;
    }
    true
}

/// Writes keep the set of addresses that the memory holds.
pub proof fn lemma_store_all_keys(bytes: Map<int, u8>, writes: Seq<(u64, u64)>)
    ensures
        store_all(bytes, writes).dom() == bytes.dom(),
    decreases writes.len(),
{
    if writes.len() > 0 {
        lemma_store_all_keys(bytes, writes.drop_last());
    }
    assert(store_all(bytes, writes).dom() =~= bytes.dom());
}

/// Whether a write fits depends only on the set of addresses that the memory holds.
pub(crate) proof fn lemma_same_fit(bytes: Map<int, u8>, other: Map<int, u8>, addr: u64)
    requires
        bytes.dom() == other.dom(),
    ensures
        fits(bytes, addr) == fits(other, addr),
{
    assert(forall|a: int| bytes.contains_key(a) == #[trigger] other.contains_key(a)) by {
        assert(forall|a: int| bytes.contains_key(a) == bytes.dom().contains(a));
    }
    if fits(bytes, addr) {
        assert forall|a: int| addr <= a < addr + 8 implies #[trigger] other.contains_key(a) by {
            assert(bytes.contains_key(a));
        }
    }
    if fits(other, addr) {
        assert forall|a: int| addr <= a < addr + 8 implies #[trigger] bytes.contains_key(a) by {
            assert(other.contains_key(a));
        }
    }
}

/// Making the writes up to number `n`, all of which fit, and then the next one, is making the
/// writes up to number `n + 1`.
pub(crate) proof fn lemma_store_next(bytes: Map<int, u8>, writes: Seq<(u64, u64)>, n: int)
    requires
        0 <= n < writes.len(),
        all_fit(bytes, writes.take(n)),
    ensures
        store_all(bytes, writes.take(n + 1)) == store(
            store_all(bytes, writes.take(n)),
            writes[n].0,
            writes[n].1,
        ),
        fits(store_all(bytes, writes.take(n)), writes[n].0) == fits(bytes, writes[n].0),
        all_fit(bytes, writes.take(n + 1)) == fits(bytes, writes[n].0),
{
    let next = writes.take(n + 1);
    assert(next.drop_last() =~= writes.take(n));
    lemma_store_all_keys(bytes, writes.take(n));
    lemma_same_fit(bytes, store_all(bytes, writes.take(n)), writes[n].0);
    if fits(bytes, writes[n].0) {
        assert forall|i: int| 0 <= i < next.len() implies fits(bytes, (#[trigger] next[i]).0) by {
            if i < n {
                assert(writes.take(n)[i] == next[i]);
            }
        }
    } else {
        assert(next[n] == writes[n]);
    }
}

/// Nothing is written after a write that does not fit.
pub(crate) proof fn lemma_store_stops(bytes: Map<int, u8>, writes: Seq<(u64, u64)>, n: int)
    requires
        0 <= n <= writes.len(),
        !all_fit(bytes, writes.take(n)),
    ensures
        store_all(bytes, writes) == store_all(bytes, writes.take(n)),
        !all_fit(bytes, writes),
    decreases writes.len(),
{
    let i = choose|i: int| 0 <= i < n && !fits(bytes, (#[trigger] writes.take(n)[i]).0);
    assert(writes[i] == writes.take(n)[i]);
    if n == writes.len() {
        assert(writes.take(n) =~= writes);
    } else {
        assert(writes.drop_last().take(n) =~= writes.take(n));
        lemma_store_stops(bytes, writes.drop_last(), n);
    }
}

/// A list of writes can be made in two parts.
pub proof fn lemma_store_all_concat(
    bytes: Map<int, u8>,
    first: Seq<(u64, u64)>,
    second: Seq<(u64, u64)>,
)
    ensures
        store_all(bytes, first + second) == if all_fit(bytes, first) {
            store_all(store_all(bytes, first), second)
        } else {
            store_all(bytes, first)
        },
        all_fit(bytes, first + second) == (all_fit(bytes, first) && all_fit(
            store_all(bytes, first),
            second,
        )),
    decreases second.len(),
{
    let both = first + second;
    let middle = store_all(bytes, first);
    assert(both.take(first.len() as int) =~= first);
    if !all_fit(bytes, first) {
        lemma_store_stops(bytes, both, first.len() as int);
    } else if second.len() == 0 {
        assert(both =~= first);
    } else {
        lemma_store_all_concat(bytes, first, second.drop_last());
        assert(both.drop_last() =~= first + second.drop_last());
        lemma_store_all_keys(bytes, first);
        lemma_same_fit(bytes, middle, second.last().0);
        if all_fit(middle, second) {
            assert(all_fit(middle, second.drop_last())) by {
                assert forall|i: int| 0 <= i < second.len() - 1 implies fits(
                    middle,
                    (#[trigger] second.drop_last()[i]).0,
                ) by {
                    assert(second[i] == second.drop_last()[i]);
                }
            }
            assert(second[second.len() - 1] == second.last());
            assert(fits(bytes, second.last().0));
            assert forall|i: int| 0 <= i < both.len() implies fits(bytes, (#[trigger] both[i]).0) by {
                if i < both.len() - 1 {
                    assert(both[i] == (first + second.drop_last())[i]);
                } else {
                    assert(both[i] == second.last());
                }
            }
        }
        if all_fit(bytes, both) {
            assert forall|i: int| 0 <= i < both.len() - 1 implies fits(
                bytes,
                (#[trigger] (first + second.drop_last())[i]).0,
            ) by {
                assert(both[i] == (first + second.drop_last())[i]);
            }
            assert(both[both.len() - 1] == second.last());
            assert forall|i: int| 0 <= i < second.len() implies fits(
                middle,
                (#[trigger] second[i]).0,
            ) by {
                if i < second.len() - 1 {
                    assert(second[i] == second.drop_last()[i]);
                }
            }
        }
    }
}

/// A byte that none of the writes reaches stays as it is.
pub proof fn lemma_store_all_frame(bytes: Map<int, u8>, writes: Seq<(u64, u64)>, a: int)
    requires
        bytes.contains_key(a),
        forall|i: int|
            0 <= i < writes.len() ==> a < (#[trigger] writes[i]).0 || a >= writes[i].0 + 8,
    ensures
        store_all(bytes, writes).contains_key(a),
        store_all(bytes, writes)[a] == bytes[a],
    decreases writes.len(),
{
    lemma_store_all_keys(bytes, writes);
    assert(store_all(bytes, writes).dom().contains(a));
    if writes.len() > 0 {
        assert forall|i: int| 0 <= i < writes.len() - 1 implies a < (
        #[trigger] writes.drop_last()[i]).0 || a >= writes.drop_last()[i].0 + 8 by {
            assert(writes[i] == writes.drop_last()[i]);
        }
        assert(writes[writes.len() - 1] == writes.last());
        lemma_store_all_frame(bytes, writes.drop_last(), a);
    }
}

/// A word that fits is read back after it has been written.
pub proof fn lemma_word_of_store(bytes: Map<int, u8>, addr: u64, val: u64)
    requires
        fits(bytes, addr),
    ensures
        word_at(store(bytes, addr, val), addr as int) == val,
{
    let after = store(bytes, addr, val);
    assert forall|k: int| 0 <= k < 8 implies #[trigger] after[addr + k] == le_byte(val, k) by {
        assert(bytes.contains_key(addr + k));
    }
    assert(after[addr + 0] == le_byte(val, 0));
    assert(val == (val >> 0 & 0xff) + (val >> 8 & 0xff) * 0x100 + (val >> 16 & 0xff) * 0x1_0000
        + (val >> 24 & 0xff) * 0x100_0000 + (val >> 32 & 0xff) * 0x1_0000_0000
        + (val >> 40 & 0xff) * 0x100_0000_0000 + (val >> 48 & 0xff) * 0x1_0000_0000_0000
        + (val >> 56 & 0xff) * 0x100_0000_0000_0000) by (bit_vector);
    assert forall|s: u64| #[trigger] (val >> s & 0xff) <= 0xff by {
        let w = val >> s;
        assert(w & 0xff <= 0xff) by (bit_vector);
    }
}

/// The value of a write is read back after all the writes, if they all fit and no later one
/// touches its eight bytes.
pub proof fn lemma_word_of_store_all(bytes: Map<int, u8>, writes: Seq<(u64, u64)>, i: int)
    requires
        all_fit(bytes, writes),
        0 <= i < writes.len(),
        forall|j: int|
            i < j < writes.len() ==> writes[i].0 + 8 <= (#[trigger] writes[j]).0 || writes[j].0 + 8
                <= writes[i].0,
    ensures
        word_at(store_all(bytes, writes), writes[i].0 as int) == writes[i].1,
    decreases writes.len(),
{
    let before = writes.drop_last();
    assert forall|j: int| 0 <= j < before.len() implies fits(bytes, (#[trigger] before[j]).0) by {
        assert(writes[j] == before[j]);
    }
    lemma_store_all_keys(bytes, before);
    if i == writes.len() - 1 {
        lemma_same_fit(bytes, store_all(bytes, before), writes[i].0);
        lemma_word_of_store(store_all(bytes, before), writes[i].0, writes[i].1);
    } else {
        assert forall|j: int| i < j < before.len() implies before[i].0 + 8 <= (
        #[trigger] before[j]).0 || before[j].0 + 8 <= before[i].0 by {
            assert(writes[j] == before[j]);
        }
        lemma_word_of_store_all(bytes, before, i);
        let addr = writes[i].0 as int;
        let last = writes[writes.len() - 1];
        assert(addr + 8 <= last.0 || last.0 + 8 <= addr);
        assert forall|k: int| 0 <= k < 8 implies #[trigger] store_all(bytes, writes)[addr + k]
            == store_all(bytes, before)[addr + k] by {
            assert(bytes.contains_key(addr + k)) by {
                assert(fits(bytes, writes[i].0));
            }
            assert(store_all(bytes, before).dom().contains(addr + k));
        }
        assert(store_all(bytes, writes)[addr + 0] == store_all(bytes, before)[addr + 0]);
    }
}

} // verus!
