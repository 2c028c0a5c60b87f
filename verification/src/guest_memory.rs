//! The guest's memory, as far as the devices look at it: where it is, and what it holds when it is
//! read.
//!
//! The guest writes its memory whenever it likes, so nothing is said of what a read finds.
use vm_memory::{Bytes, GuestAddress, GuestMemory, GuestMemoryMmap};
use vstd::prelude::*;

verus! {

/// The memory of a guest: regions of guest-physical addresses, each mapped into this process.
#[verifier::external_type_specification]
#[verifier::external_body]
#[verifier::reject_recursive_types(B)]
pub struct ExGuestMemoryMmap<B>(GuestMemoryMmap<B>);

/// The regions of a guest's memory: where each begins, and how many bytes it has.
pub uninterp spec fn guest_regions(mem: GuestMemoryMmap) -> Seq<(u64, u64)>;

/// Address `a` lies in region `r`. Addresses have 64 bits.
pub open spec fn in_region(r: (u64, u64), a: int) -> bool {
    r.0 <= a < r.0 + r.1 && a <= u64::MAX
}

/// One of the regions holds address `a`.
pub open spec fn holds(regions: Seq<(u64, u64)>, a: int) -> bool {
    exists|i: int| 0 <= i < regions.len() && in_region(#[trigger] regions[i], a)
}

/// The regions hold the address, and the `len` bytes from there, perhaps in several of them.
pub open spec fn spans(regions: Seq<(u64, u64)>, addr: int, len: int) -> bool {
    &&& holds(regions, addr)
    &&& forall|a: int| addr <= a < addr + len ==> #[trigger] holds(regions, a)
}

/// One region holds the address, and the `len` bytes from there.
pub open spec fn within(regions: Seq<(u64, u64)>, addr: int, len: int) -> bool {
    exists|i: int|
        0 <= i < regions.len() && in_region(#[trigger] regions[i], addr) && addr + len
            <= regions[i].0 + regions[i].1
}

/// Calls `GuestMemory::get_host_address`: there is a host address exactly for an address that a
/// region holds. Which one it is depends on where the region was mapped, and is not stated.
#[verifier::external_body]
pub(crate) fn host_address(mem: &GuestMemoryMmap, addr: u64) -> (r: Option<usize>)
    ensures
        r is Some == holds(guest_regions(*mem), addr as int),
{
    match mem.get_host_address(GuestAddress(addr)) {
        Ok(p) => Some(p as usize),
        Err(_) => None,
    }
}

/// Calls `GuestMemory::get_slice` and keeps whether it succeeded: it does exactly where one region
/// holds the whole range.
#[verifier::external_body]
fn has_slice(mem: &GuestMemoryMmap, addr: u64, len: usize) -> (r: bool)
    ensures
        r == within(guest_regions(*mem), addr as int, len as int),
{
    mem.get_slice(GuestAddress(addr), len).is_ok()
}

/// Calls `Bytes::read_slice`: it succeeds exactly where the regions hold as many bytes from the
/// address as the buffer has room for, and then fills the buffer. What it finds there is the
/// guest's, and is not stated.
#[verifier::external_body]
fn read_slice(mem: &GuestMemoryMmap, addr: u64, bytes: &mut Vec<u8>) -> (r: bool)
    ensures
        r == spans(guest_regions(*mem), addr as int, old(bytes)@.len() as int),
        final(bytes)@.len() == old(bytes)@.len(),
{
    mem.read_slice(bytes, GuestAddress(addr)).is_ok()
}

/// Reads `len` bytes, where the regions hold them all. What they are is the guest's.
pub(crate) fn read_bytes(mem: &GuestMemoryMmap, addr: u64, len: usize) -> (r: Option<Vec<u8>>)
    ensures
        r is Some == spans(guest_regions(*mem), addr as int, len as int),
        r matches Some(b) ==> b@.len() == len,
{
    let mut bytes: Vec<u8> = vec![0u8; len];
    if read_slice(mem, addr, &mut bytes) {
        Some(bytes)
    } else {
        None
    }
}

/// Every one of the ranges lies whole in one region.
pub open spec fn all_within(regions: Seq<(u64, u64)>, ranges: Seq<(u64, usize)>) -> bool {
    forall|i: int|
        0 <= i < ranges.len() ==> within(
            regions,
            (#[trigger] ranges[i]).0 as int,
            ranges[i].1 as int,
        )
}

/// Whether every one of the ranges can be handed out as a piece of guest memory.
pub fn check_ranges(mem: &GuestMemoryMmap, ranges: &Vec<(u64, usize)>) -> (r: bool)
    ensures
        r == all_within(guest_regions(*mem), ranges@),
{
    let mut i: usize = 0;
    while i < ranges.len()
        invariant
            i <= ranges@.len(),
            all_within(guest_regions(*mem), ranges@.take(i as int)),
        decreases ranges@.len() - i,
    {
        let range: (u64, usize) = ranges[i];
        if !has_slice(mem, range.0, range.1) {
            assert(!within(guest_regions(*mem), ranges@[i as int].0 as int, ranges@[i as int].1 as int));
            return false;
        }
        assert forall|j: int| 0 <= j < i + 1 implies within(
            guest_regions(*mem),
            (#[trigger] ranges@.take(i + 1)[j]).0 as int,
            ranges@.take(i + 1)[j].1 as int,
        ) by {
            if j < i {
                assert(ranges@.take(i as int)[j] == ranges@[j]);
            }
        }
        i = i + 1;
    }
    assert(ranges@.take(ranges@.len() as int) =~= ranges@);
    true
}

} // verus!
