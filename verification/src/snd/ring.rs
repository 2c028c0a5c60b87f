//! The ring between the device's thread and the host's audio thread: what is put in first comes
//! out first, and what does not fit is not taken.
use vstd::prelude::*;

verus! {

/// A ring of samples with a fixed number of places.
pub struct SpscRing {
    buf: Vec<i16>,
    head: usize,
    len: usize,
}

/// What a ring holds, oldest first, and how much it can hold.
pub struct RingView {
    pub queued: Seq<i16>,
    pub cap: nat,
}

/// The place `i` steps behind `head`.
spec fn place(head: int, i: int, cap: int) -> int {
    if head + i < cap {
        head + i
    } else {
        head + i - cap
    }
}

/// The lesser of two counts.
pub open spec fn least(a: nat, b: nat) -> nat {
    if a <= b {
        a
    } else {
        b
    }
}

impl RingView {
    /// Takes as many samples as there is room for.
    pub open spec fn pushed(self, samples: Seq<i16>) -> Self {
        let n = least((self.cap - self.queued.len()) as nat, samples.len());
        RingView { queued: self.queued + samples.take(n as int), ..self }
    }

    /// Gives up to `n` samples out.
    pub open spec fn pulled(self, n: nat) -> Self {
        RingView { queued: self.queued.skip(least(self.queued.len(), n) as int), ..self }
    }
}

impl View for SpscRing {
    type V = RingView;

    closed spec fn view(&self) -> RingView {
        RingView {
            queued: Seq::new(
                self.len as nat,
                |i: int| self.buf@[place(self.head as int, i, self.buf@.len() as int)],
            ),
            cap: self.buf@.len(),
        }
    }
}

impl SpscRing {
    pub closed spec fn inv(self) -> bool {
        &&& self.len <= self.buf@.len()
        &&& self.buf@.len() == 0 || self.head < self.buf@.len()
    }

    pub fn new(cap: usize) -> (r: Self)
        ensures
            r.inv(),
            r@ == (RingView { queued: Seq::empty(), cap: cap as nat }),
    {
        let buf: Vec<i16> = vec![0i16; cap];
        let r = SpscRing { buf, head: 0, len: 0 };
        assert(r@.queued =~= Seq::empty());
        r
    }

    /// Appends samples; returns how many there was room for.
    pub fn push(&mut self, samples: &[i16]) -> (n: usize)
        requires
            old(self).inv(),
        ensures
            final(self).inv(),
            final(self)@ == old(self)@.pushed(samples@),
            n == least((old(self)@.cap - old(self)@.queued.len()) as nat, samples@.len()),
    {
        let cap: usize = self.buf.len();
        let space: usize = cap - self.len;
        let n: usize = if space <= samples.len() {
            space
        } else {
            samples.len()
        };
        let ghost before = self@;
        let mut i: usize = 0;
        while i < n
            invariant
                self.inv(),
                self.buf@.len() == cap == before.cap,
                i <= n <= samples@.len(),
                before.queued.len() + n <= cap,
                self.len == before.queued.len() + i,
                self@.queued == before.queued + samples@.take(i as int),
            decreases n - i,
        {
            // The place behind the last one, found without running past the end of the addresses.
            let left: usize = cap - self.head;
            let at: usize = if self.len < left {
                self.head + self.len
            } else {
                self.len - left
            };
            let ghost was = self@.queued;
            let ghost earlier = self.buf@;
            self.buf.set(at, samples[i]);
            self.len = self.len + 1;
            i = i + 1;
            assert(self@.queued =~= was.push(samples@[i - 1])) by {
                assert forall|k: int| 0 <= k < self.len implies #[trigger] self@.queued[k]
                    == was.push(samples@[i - 1])[k] by {
                    let p = place(self.head as int, k, cap as int);
                    if k < self.len - 1 {
                        assert(p != at);
                        assert(self.buf@[p] == earlier[p]);
                    }
                }
            }
            assert(samples@.take(i as int) =~= samples@.take(i - 1).push(samples@[i - 1]));
            assert(self@.queued =~= before.queued + samples@.take(i as int));
        }
        assert(self@ == before.pushed(samples@)) by {
            assert(self@.queued =~= before.pushed(samples@).queued);
        }
        n
    }

    /// Fills `out` from its start; returns how many samples there were for it. The rest of `out`
    /// stays as it is.
    pub fn pull(&mut self, out: &mut [i16]) -> (n: usize)
        requires
            old(self).inv(),
        ensures
            final(self).inv(),
            final(self)@ == old(self)@.pulled(old(out)@.len()),
            n == least(old(self)@.queued.len(), old(out)@.len()),
            final(out)@ == old(self)@.queued.take(n as int) + old(out)@.skip(n as int),
    {
        let cap: usize = self.buf.len();
        let want: usize = out.len();
        let n: usize = if self.len <= want {
            self.len
        } else {
            want
        };
        let ghost before = self@;
        let mut i: usize = 0;
        while i < n
            invariant
                self.inv(),
                self.buf@.len() == cap == before.cap,
                i <= n <= before.queued.len() <= cap,
                self.len == before.queued.len() - i,
                n <= out@.len() == old(out)@.len(),
                self@.queued == before.queued.skip(i as int),
                forall|k: int|
                    0 <= k < out@.len() ==> #[trigger] out@[k] == (if k < i {
                        before.queued[k]
                    } else {
                        old(out)@[k]
                    }),
            decreases n - i,
        {
            let ghost was = self@.queued;
            assert(was[0] == before.queued[i as int]);
            let ghost earlier = self.head as int;
            out[i] = self.buf[self.head];
            self.head = if self.head + 1 == cap {
                0
            } else {
                self.head + 1
            };
            self.len = self.len - 1;
            i = i + 1;
            assert(self@.queued =~= was.skip(1)) by {
                assert forall|k: int| 0 <= k < self.len implies #[trigger] self@.queued[k]
                    == was.skip(1)[k] by {
                    assert(place(self.head as int, k, cap as int) == place(
                        earlier,
                        k + 1,
                        cap as int,
                    ));
                }
            }
            assert(self@.queued =~= before.queued.skip(i as int));
        }
        assert(out@ =~= before.queued.take(n as int) + old(out)@.skip(n as int));
        n
    }

    /// Forgets every sample.
    pub fn reset(&mut self)
        requires
            old(self).inv(),
        ensures
            final(self).inv(),
            final(self)@ == (RingView { queued: Seq::empty(), ..old(self)@ }),
    {
        self.head = 0;
        self.len = 0;
        assert(self@.queued =~= Seq::empty());
    }

    /// How many samples are waiting.
    pub fn available(&self) -> (r: usize)
        ensures
            r == self@.queued.len(),
    {
        self.len
    }
}

/// What goes in comes out in the same order: a ring with room for two pushes gives them back, one
/// behind the other, behind what it held before.
pub proof fn law_first_in_first_out(v: RingView, a: Seq<i16>, b: Seq<i16>)
    requires
        v.queued.len() + a.len() + b.len() <= v.cap,
    ensures
        v.pushed(a).pushed(b).queued == v.queued + a + b,
        v.pushed(a).pushed(b).pulled(v.queued.len()).queued == a + b,
        v.pushed(a).pushed(b).pulled(v.queued.len()).pulled(a.len()).queued == b,
{
    assert(a.take(a.len() as int) =~= a);
    assert(b.take(b.len() as int) =~= b);
    assert(v.pushed(a).pushed(b).queued =~= v.queued + a + b);
    assert(v.pushed(a).pushed(b).pulled(v.queued.len()).queued =~= a + b);
    assert(v.pushed(a).pushed(b).pulled(v.queued.len()).pulled(a.len()).queued =~= b);
}

} // verus!
