//! What follows a command's fixed part on the wire: guest memory ranges, fence ids and command
//! buffers.
use crate::codec;
use crate::codec::{to_vec, Cursor, Decoded};
use crate::gpu::protocol::{GpuResponse, GpuResponseView};
use vstd::prelude::*;

verus! {

/// A guest memory range on the wire: an address, a length and padding.
pub open spec fn dec_mem_entry(s: Seq<u8>) -> Decoded<(u64, usize)> {
    match codec::dec_u64(s) {
        Some((addr, s)) => match codec::dec_u32(s) {
            Some((len, s)) => match codec::dec_u32(s) {
                Some((_, s)) => Some(((addr, len as usize), s)),
                None => None,
            },
            None => None,
        },
        None => None,
    }
}

/// `n` guest memory ranges, if there are that many.
pub open spec fn mem_entries(s: Seq<u8>, n: u32) -> Option<Seq<(u64, usize)>> {
    match codec::dec_list(s, n as nat, |s: Seq<u8>| dec_mem_entry(s)) {
        Some((items, _)) => Some(items),
        None => None,
    }
}

/// Reads `n` guest memory ranges.
pub fn read_mem_entries(payload: &[u8], n: u32) -> (r: Option<Vec<(u64, usize)>>)
    ensures
        match r {
            Some(v) => mem_entries(payload@, n) == Some(v@),
            None => mem_entries(payload@, n) is None,
        },
{
    let mut c: Cursor = Cursor { data: payload, pos: 0 };
    assert(c.rest() =~= payload@);
    let mut items: Vec<(u64, usize)> = Vec::new();
    let ghost g = |s: Seq<u8>| dec_mem_entry(s);
    let mut i: u32 = 0;
    while i < n
        invariant
            i <= n,
            c.wf(),
            g == (|s: Seq<u8>| dec_mem_entry(s)),
            codec::dec_list(payload@, i as nat, g) == Some((items@, c.rest())),
        decreases n - i,
    {
        proof {
            codec::lemma_list_step(payload@, i as nat, g);
            if dec_mem_entry(c.rest()) is None {
                codec::lemma_list_fails(payload@, (i + 1) as nat, n as nat, g);
            }
        }
        let addr: u64 = c.u64()?;
        let len: u32 = c.u32()?;
        let _pad: u32 = c.u32()?;
        items.push((addr, len as usize));
        i = i + 1;
    }
    Some(items)
}

/// A submission's payload: the fences it waits for, then the command buffer.
pub open spec fn submission(s: Seq<u8>, fences: u32, size: u32) -> Result<
    (Seq<u64>, Seq<u8>),
    GpuResponseView,
> {
    match codec::dec_list(s, fences as nat, |s: Seq<u8>| codec::dec_u64(s)) {
        Some((ids, rest)) => if size as nat <= rest.len() {
            Ok((ids, rest.take(size as int)))
        } else {
            Err(GpuResponseView::ErrInvalidParameter)
        },
        None => Err(GpuResponseView::ErrUnspec),
    }
}

/// Reads a submission's fences and command buffer.
pub fn read_submission(payload: &[u8], fences: u32, size: u32) -> (r: Result<
    (Vec<u64>, Vec<u8>),
    GpuResponse,
>)
    ensures
        match r {
            Ok((ids, buf)) => submission(payload@, fences, size) == Ok::<
                (Seq<u64>, Seq<u8>),
                GpuResponseView,
            >((ids@, buf@)),
            Err(e) => submission(payload@, fences, size) == Err::<
                (Seq<u64>, Seq<u8>),
                GpuResponseView,
            >(e@),
        },
{
    let mut c: Cursor = Cursor { data: payload, pos: 0 };
    assert(c.rest() =~= payload@);
    let mut ids: Vec<u64> = Vec::new();
    let ghost g = |s: Seq<u8>| codec::dec_u64(s);
    let mut i: u32 = 0;
    while i < fences
        invariant
            i <= fences,
            c.wf(),
            g == (|s: Seq<u8>| codec::dec_u64(s)),
            codec::dec_list(payload@, i as nat, g) == Some((ids@, c.rest())),
        decreases fences - i,
    {
        proof {
            codec::lemma_list_step(payload@, i as nat, g);
            if codec::dec_u64(c.rest()) is None {
                codec::lemma_list_fails(payload@, (i + 1) as nat, fences as nat, g);
            }
        }
        match c.u64() {
            Some(id) => {
                ids.push(id);
            },
            None => {
                return Err(GpuResponse::ErrUnspec);
            },
        }
        i = i + 1;
    }
    match c.take(size as usize) {
        Some(b) => Ok((ids, to_vec(b))),
        None => Err(GpuResponse::ErrInvalidParameter),
    }
}

} // verus!
