//! Signed 16-bit samples and their little-endian bytes.
use vstd::prelude::*;

verus! {

/// The sample in two bytes.
pub open spec fn sample_of(lo: u8, hi: u8) -> i16 {
    let v = lo + 256 * hi;
    if v < 32768 {
        v as i16
    } else {
        (v - 65536) as i16
    }
}

/// The low byte of a sample.
pub open spec fn low(s: i16) -> u8 {
    (s as int % 256) as u8
}

/// The high byte of a sample.
pub open spec fn high(s: i16) -> u8 {
    (s as int / 256 % 256) as u8
}

/// The samples in these bytes, without an odd byte at their end.
pub open spec fn decoded(b: Seq<u8>) -> Seq<i16> {
    Seq::new(b.len() / 2, |i: int| sample_of(b[2 * i], b[2 * i + 1]))
}

/// The bytes of these samples.
pub open spec fn encoded(s: Seq<i16>) -> Seq<u8> {
    Seq::new(
        2 * s.len(),
        |i: int|
            if i % 2 == 0 {
                low(s[i / 2])
            } else {
                high(s[i / 2])
            },
    )
}

/// How far a sample is from silence.
pub open spec fn magnitude(s: i16) -> nat {
    if s < 0 {
        -(s as int) as nat
    } else {
        s as nat
    }
}

/// The magnitude of the loudest sample; 0 where there is none.
pub open spec fn peak_of(s: Seq<i16>) -> nat
    decreases s.len(),
{
    if s.len() == 0 {
        0
    } else {
        let before = peak_of(s.drop_last());
        if before < magnitude(s.last()) {
            magnitude(s.last())
        } else {
            before
        }
    }
}

fn sample(lo: u8, hi: u8) -> (r: i16)
    ensures
        r == sample_of(lo, hi),
{
    let v: i32 = lo as i32 + 256 * (hi as i32);
    if v < 32768 {
        v as i16
    } else {
        (v - 65536) as i16
    }
}

/// The samples in these bytes.
pub fn decode(b: &[u8]) -> (r: Vec<i16>)
    ensures
        r@ == decoded(b@),
{
    let len: usize = b.len();
    let n: usize = len / 2;
    let mut r: Vec<i16> = Vec::new();
    let mut i: usize = 0;
    while i < n
        invariant
            i <= n == len / 2,
            len == b@.len(),
            r@.len() == i,
            forall|k: int| 0 <= k < i ==> #[trigger] r@[k] == sample_of(b@[2 * k], b@[2 * k + 1]),
        decreases n - i,
    {
        r.push(sample(b[2 * i], b[2 * i + 1]));
        i = i + 1;
    }
    assert(r@ =~= decoded(b@));
    r
}

/// Appends the bytes of these samples.
pub fn encode(samples: &[i16], r: &mut Vec<u8>)
    ensures
        final(r)@ == old(r)@ + encoded(samples@),
{
    let n: usize = samples.len();
    let mut i: usize = 0;
    assert(r@ =~= old(r)@ + encoded(samples@.take(0)));
    while i < n
        invariant
            i <= n == samples@.len(),
            r@ == old(r)@ + encoded(samples@.take(i as int)),
        decreases n - i,
    {
        let s: i32 = samples[i] as i32;
        let v: u32 = if s < 0 {
            (s + 65536) as u32
        } else {
            s as u32
        };
        let ghost before = encoded(samples@.take(i as int));
        r.push((v % 256) as u8);
        r.push((v / 256) as u8);
        i = i + 1;
        proof {
            let now = encoded(samples@.take(i as int));
            let last = samples@[i - 1];
            assert(now =~= before + seq![low(last), high(last)]) by {
                assert forall|k: int| 0 <= k < now.len() implies #[trigger] now[k] == (before + seq![
                    low(last),
                    high(last),
                ])[k] by {
                    if k < before.len() {
                        assert(samples@.take(i as int)[k / 2] == samples@.take(i - 1)[k / 2]);
                    }
                }
            }
            assert(r@ =~= old(r)@ + now);
        }
    }
    assert(samples@.take(n as int) =~= samples@);
}

/// The magnitude of the loudest sample.
pub fn peak(samples: &[i16]) -> (r: u16)
    ensures
        r == peak_of(samples@),
{
    let n: usize = samples.len();
    let mut r: u16 = 0;
    let mut i: usize = 0;
    while i < n
        invariant
            i <= n == samples@.len(),
            r == peak_of(samples@.take(i as int)),
        decreases n - i,
    {
        let s: i32 = samples[i] as i32;
        let m: u16 = if s < 0 {
            (0 - s) as u16
        } else {
            s as u16
        };
        i = i + 1;
        proof {
            assert(samples@.take(i as int).drop_last() =~= samples@.take(i - 1));
        }
        if r < m {
            r = m;
        }
    }
    assert(samples@.take(n as int) =~= samples@);
    r
}

/// Bytes are samples and samples are bytes, one for one.
pub proof fn law_samples_round_trip(s: Seq<i16>, b: Seq<u8>)
    ensures
        decoded(encoded(s)) == s,
        b.len() % 2 == 0 ==> encoded(decoded(b)) == b,
{
    assert(decoded(encoded(s)) =~= s) by {
        assert forall|i: int| 0 <= i < s.len() implies #[trigger] decoded(encoded(s))[i] == s[i] by {
            assert(encoded(s)[2 * i] == low(s[i]));
            assert((2 * i + 1) / 2 == i);
            assert(encoded(s)[2 * i + 1] == high(s[i]));
        }
    }
    if b.len() % 2 == 0 {
        assert(encoded(decoded(b)) =~= b) by {
            assert forall|i: int| 0 <= i < b.len() implies #[trigger] encoded(decoded(b))[i]
                == b[i] by {
                let k = i / 2;
                assert(decoded(b)[k] == sample_of(b[2 * k], b[2 * k + 1]));
            }
        }
    }
}

/// Samples are silent exactly when their peak is zero.
pub proof fn law_peak_is_zero_in_silence(s: Seq<i16>)
    ensures
        peak_of(s) == 0 <==> (forall|i: int| 0 <= i < s.len() ==> #[trigger] s[i] == 0),
    decreases s.len(),
{
    if s.len() > 0 {
        let front = s.drop_last();
        law_peak_is_zero_in_silence(front);
        if peak_of(s) == 0 {
            assert forall|i: int| 0 <= i < s.len() implies #[trigger] s[i] == 0 by {
                if i < front.len() {
                    assert(front[i] == 0);
                }
            }
        }
        if forall|i: int| 0 <= i < s.len() ==> #[trigger] s[i] == 0 {
            assert forall|i: int| 0 <= i < front.len() implies #[trigger] front[i] == 0 by {
                assert(s[i] == 0);
            }
            assert(s[s.len() - 1] == 0);
        }
    }
}

} // verus!
