//! The ring buffer of a message channel.
use vstd::prelude::*;

verus! {

/// The number of slots of the ring.
pub const QUEUE_SIZE: usize = 8;

/// A ring of slots: `head` is the slot the last value was taken from, `last` the slot the
/// last value was put in; the values waiting are in the slots after `head` up to `last`.
/// One slot always stays free, so the ring holds at most `QUEUE_SIZE - 1` values.
pub struct RingQ<T> {
    pub buf: Vec<Option<T>>,
    pub head: usize,
    pub last: usize,
}

impl<T> RingQ<T> {
    /// How many values wait in the ring.
    pub open spec fn count(&self) -> int {
        (self.last + QUEUE_SIZE - self.head) % (QUEUE_SIZE as int)
    }

    /// The slot of the `k`-th waiting value.
    pub open spec fn slot(&self, k: int) -> int {
        (self.head + 1 + k) % (QUEUE_SIZE as int)
    }

    /// The ring has its slots, both ends point into it, and every waiting value is there.
    pub open spec fn wf(&self) -> bool {
        &&& self.buf@.len() == QUEUE_SIZE
        &&& self.head < QUEUE_SIZE
        &&& self.last < QUEUE_SIZE
        &&& forall|k: int| 0 <= k < self.count() ==> (#[trigger] self.buf@[self.slot(k)]) is Some
    }

    /// The waiting values, the first to be taken first.
    pub open spec fn items(&self) -> Seq<T> {
        Seq::new(self.count() as nat, |k: int| self.buf@[self.slot(k)]->Some_0)
    }

    /// An empty ring.
    pub fn new() -> (r: Self)
        ensures
            r.wf(),
            r.items() == Seq::<T>::empty(),
    {
        let mut buf: Vec<Option<T>> = Vec::new();
        let mut i: usize = 0;
        while i < QUEUE_SIZE
            invariant
                0 <= i <= QUEUE_SIZE,
                buf@.len() == i,
                forall|j: int| 0 <= j < i ==> buf@[j] is None,
            decreases QUEUE_SIZE - i,
        {
            buf.push(None);
            i += 1;
        }
        let r = RingQ { buf: buf, head: 0, last: 0 };
        assert(r.items() =~= Seq::<T>::empty());
        r
    }

    /// Puts `v` last, unless the ring is full: then `v` comes back.
    #[verifier::spinoff_prover]
    #[verifier::rlimit(40)]
    pub fn enque(&mut self, v: T) -> (r: Result<(), T>)
        requires
            old(self).wf(),
        ensures
            final(self).wf(),
            old(self).count() == QUEUE_SIZE - 1 ==> r == Err::<(), T>(v) && final(self).items() == old(self).items(),
            old(self).count() < QUEUE_SIZE - 1 ==> r is Ok && final(self).items() == old(self).items().push(v),
    {
        let ghost o = *self;
        let l = self.last + 1;
        let next = l & (QUEUE_SIZE - 1);
        assert((l & 7usize) == l % 8) by (bit_vector);
        if next == self.head {
            Err(v)
        } else {
            self.last = next;
            self.buf.set(next, Some(v));
            proof {
                assert(self.count() == o.count() + 1);
                assert forall|k: int| 0 <= k < self.count() implies (#[trigger] self.buf@[self.slot(k)]) is Some by {
                    if k < o.count() {
                        assert(self.slot(k) == o.slot(k));
                        assert(o.buf@[o.slot(k)] is Some);
                    }
                }
                assert forall|k: int| 0 <= k < o.count() implies self.slot(k) != next && self.slot(k) == o.slot(k) by {}
                assert(self.items() =~= o.items().push(v));
            }
            Ok(())
        }
    }

    /// Takes the first waiting value, unless the ring is empty.
    #[verifier::spinoff_prover]
    #[verifier::rlimit(40)]
    pub fn deque(&mut self) -> (r: Option<T>)
        requires
            old(self).wf(),
        ensures
            final(self).wf(),
            old(self).count() == 0 ==> r is None && final(self).items() == old(self).items(),
            old(self).count() > 0 ==> r == Some(old(self).items()[0]) && final(self).items() == old(self).items().drop_first(),
    {
        let ghost o = *self;
        if self.head == self.last {
            None
        } else {
            let h = self.head + 1;
            let next = h & (QUEUE_SIZE - 1);
            assert((h & 7usize) == h % 8) by (bit_vector);
            let mut v: Option<T> = None;
            std::mem::swap(&mut v, &mut self.buf[next]);
            self.head = next;
            proof {
                assert(next as int == o.slot(0));
                assert(o.buf@[o.slot(0)] is Some);
                assert(self.count() == o.count() - 1);
                assert forall|k: int| 0 <= k < self.count() implies self.slot(k) == o.slot(k + 1) && self.slot(k) != next by {}
                assert forall|k: int| 0 <= k < self.count() implies (#[trigger] self.buf@[self.slot(k)]) is Some by {
                    assert(o.buf@[o.slot(k + 1)] is Some);
                }
                assert(self.items() =~= o.items().drop_first());
            }
            v
        }
    }
}

} // verus!
