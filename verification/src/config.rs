//! Config space: how a driver reads a device's configuration, part by part.
use vstd::prelude::*;

verus! {

/// What of a configuration of `len` bytes a read of `want` bytes at `offset` gets: nothing past
/// its end, and nothing at all where the read starts there or runs over the top of the addresses.
pub open spec fn readable(len: nat, offset: u64, want: nat) -> nat {
    if offset >= len || offset + want > u64::MAX {
        0
    } else if offset + want <= len {
        want
    } else {
        (len - offset) as nat
    }
}

/// `data` after a read of the configuration at `offset`.
pub open spec fn config_after(config: Seq<u8>, offset: u64, data: Seq<u8>) -> Seq<u8> {
    let n = readable(config.len(), offset, data.len());
    if n == 0 {
        data
    } else {
        config.subrange(offset as int, offset + n) + data.skip(n as int)
    }
}

/// Reads a device's configuration at `offset` into `data`. Bytes that it does not have stay as
/// they are.
pub fn read_config(config: &[u8], offset: u64, data: &mut [u8])
    ensures
        final(data)@ == config_after(config@, offset, old(data)@),
{
    let len: usize = config.len();
    let want: usize = data.len();
    if offset >= len as u64 {
        return;
    }
    let end: u64 = match offset.checked_add(want as u64) {
        Some(end) => end,
        None => {
            assert(data@ =~= config_after(config@, offset, old(data)@));
            return;
        },
    };
    let start: usize = offset as usize;
    let n: usize = if end <= len as u64 {
        want
    } else {
        len - start
    };
    let mut i: usize = 0;
    while i < n
        invariant
            i <= n <= data@.len(),
            start + n <= config@.len(),
            data@.len() == old(data)@.len(),
            config@.len() == len,
            forall|k: int|
                0 <= k < data@.len() ==> #[trigger] data@[k] == (if k < i {
                    config@[start + k]
                } else {
                    old(data)@[k]
                }),
        decreases n - i,
    {
        data[i] = config[start + i];
        i = i + 1;
    }
    assert(data@ =~= config_after(config@, offset, old(data)@));
}

/// A driver that reads a configuration a byte at a time sees the same bytes as one that reads it
/// at once.
pub proof fn law_partial_reads_agree(config: Seq<u8>, offset: u64, data: Seq<u8>, k: u64, cell: Seq<u8>)
    requires
        cell.len() == 1,
        k < data.len(),
        offset + data.len() <= config.len(),
        config.len() <= u64::MAX,
    ensures
        config_after(config, offset, data)[k as int] == config_after(
            config,
            (offset + k) as u64,
            cell,
        )[0],
{
}

/// A read gets the bytes of the configuration from its offset on, as far as there are any; the rest
/// of its buffer stays as it is, and so does all of it where the read begins past the end.
pub proof fn law_config_is_read(config: Seq<u8>, offset: u64, data: Seq<u8>, i: int)
    requires
        0 <= i < data.len(),
        offset + data.len() <= u64::MAX,
    ensures
        config_after(config, offset, data).len() == data.len(),
        offset + i < config.len() ==> config_after(config, offset, data)[i] == config[offset + i],
        offset + i >= config.len() ==> config_after(config, offset, data)[i] == data[i],
{
}

} // verus!
