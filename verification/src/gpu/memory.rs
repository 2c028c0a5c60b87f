//! The requests of a command that guest memory answers.
use crate::gpu::protocol::RendererError;
use crate::gpu::resource;
use crate::gpu::step::{Pending, Reply, Request};
use crate::guest_memory;
use crate::guest_memory::{check_ranges, read_bytes};
use vm_memory::GuestMemoryMmap;
use vstd::prelude::*;

verus! {

/// Every one of the ranges lies in guest memory.
pub open spec fn all_span(regions: Seq<(u64, u64)>, ranges: Seq<(u64, usize)>) -> bool {
    forall|i: int|
        0 <= i < ranges.len() ==> guest_memory::spans(
            regions,
            (#[trigger] ranges[i]).0 as int,
            ranges[i].1 as int,
        )
}

/// Pieces, one after another.
pub open spec fn joined(pieces: Seq<Seq<u8>>) -> Seq<u8>
    decreases pieces.len(),
{
    if pieces.len() == 0 {
        Seq::empty()
    } else {
        joined(pieces.drop_last()) + pieces.last()
    }
}

/// The bytes of each piece.
pub open spec fn pieces_view(pieces: Seq<Vec<u8>>) -> Seq<Seq<u8>> {
    pieces.map_values(|v: Vec<u8>| v@)
}

/// What was read of each range, put together in the order of the ranges.
pub fn gathered(pieces: &Vec<Vec<u8>>) -> (r: Vec<u8>)
    ensures
        r@ == joined(pieces_view(pieces@)),
{
    let mut r: Vec<u8> = Vec::new();
    let mut i: usize = 0;
    let ghost all = pieces_view(pieces@);
    assert(all.take(0) =~= Seq::empty());
    while i < pieces.len()
        invariant
            i <= pieces@.len(),
            all == pieces_view(pieces@),
            r@ == joined(all.take(i as int)),
        decreases pieces@.len() - i,
    {
        r.extend_from_slice(pieces[i].as_slice());
        assert(all.take(i + 1).drop_last() =~= all.take(i as int));
        i = i + 1;
    }
    assert(all.take(all.len() as int) =~= all);
    r
}

/// The pieces are as long as the ranges, one for one.
pub open spec fn measured(pieces: Seq<Seq<u8>>, ranges: Seq<(u64, usize)>) -> bool {
    &&& pieces.len() == ranges.len()
    &&& forall|i: int| 0 <= i < ranges.len() ==> (#[trigger] pieces[i]).len() == ranges[i].1
}

/// Joined pieces are as long as the ranges together.
pub proof fn lemma_joined_len(pieces: Seq<Seq<u8>>, ranges: Seq<(u64, usize)>)
    requires
        measured(pieces, ranges),
    ensures
        joined(pieces).len() == resource::total_len(ranges),
    decreases ranges.len(),
{
    if ranges.len() > 0 {
        let short = pieces.drop_last();
        assert forall|i: int| 0 <= i < ranges.len() - 1 implies (#[trigger] short[i]).len()
            == ranges.drop_last()[i].1 by {
            assert(pieces[i].len() == ranges[i].1);
        }
        lemma_joined_len(short, ranges.drop_last());
        assert(pieces[ranges.len() - 1].len() == ranges[ranges.len() - 1].1);
    }
}

/// The bytes of the ranges, one after another, where all of them can be read. What each range holds
/// is the guest's, and is not stated.
pub fn read_ranges(mem: &GuestMemoryMmap, ranges: &Vec<(u64, usize)>) -> (r: Option<Vec<u8>>)
    ensures
        r is Some == all_span(guest_memory::guest_regions(*mem), ranges@),
        r matches Some(b) ==> b@.len() == resource::total_len(ranges@),
{
    let ghost regions = guest_memory::guest_regions(*mem);
    let mut pieces: Vec<Vec<u8>> = Vec::new();
    let mut i: usize = 0;
    while i < ranges.len()
        invariant
            i <= ranges@.len(),
            regions == guest_memory::guest_regions(*mem),
            forall|j: int|
                0 <= j < i ==> guest_memory::spans(
                    regions,
                    (#[trigger] ranges@[j]).0 as int,
                    ranges@[j].1 as int,
                ),
            pieces@.len() == i,
            forall|j: int| 0 <= j < i ==> (#[trigger] pieces@[j])@.len() == ranges@[j].1,
        decreases ranges@.len() - i,
    {
        let range: (u64, usize) = ranges[i];
        match read_bytes(mem, range.0, range.1) {
            Some(bytes) => {
                pieces.push(bytes);
            },
            None => {
                assert(!guest_memory::spans(
                    regions,
                    ranges@[i as int].0 as int,
                    ranges@[i as int].1 as int,
                ));
                return None;
            },
        }
        i = i + 1;
    }
    proof {
        lemma_joined_len(pieces_view(pieces@), ranges@);
    }
    Some(gathered(&pieces))
}

/// Answers a request that guest memory answers. `None`: somebody else is to be asked.
pub fn guest_reply(mem: &GuestMemoryMmap, pending: &Pending) -> (r: Option<Reply>)
    ensures
        ({
            let regions = guest_memory::guest_regions(*mem);
            let ranges = pending.data.ranges@;
            match pending.request {
                Request::CheckGuest => r == Some(
                    Reply::Done(guest_memory::all_within(regions, ranges)),
                ),
                Request::ReadGuest => match r {
                    Some(Reply::Bytes(Ok(b))) => all_span(regions, ranges) && b@.len()
                        == resource::total_len(ranges),
                    Some(Reply::Bytes(Err(e))) => !all_span(regions, ranges) && e
                        == RendererError::Other,
                    _ => false,
                },
                _ => r is None,
            }
        }),
{
    match pending.request {
        Request::CheckGuest => Some(Reply::Done(check_ranges(mem, &pending.data.ranges))),
        Request::ReadGuest => match read_ranges(mem, &pending.data.ranges) {
            Some(bytes) => Some(Reply::Bytes(Ok(bytes))),
            None => Some(Reply::Bytes(Err(RendererError::Other))),
        },
        _ => None,
    }
}

} // verus!
