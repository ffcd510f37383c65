//! A fixed ring of the six most recent samples.
use vstd::prelude::*;

verus! {

/// Number of slots of a ring buffer.
pub const RING_SIZE: usize = 6;

/// The slot `back` steps before `pos`, going round the ring.
pub open spec fn slot_before(pos: int, back: int) -> int {
    if pos - back < 0 {
        pos - back + RING_SIZE
    } else {
        pos - back
    }
}

/// The six most recent values pushed; `pos` is the slot of the newest and
/// `size` counts the slots filled so far.
#[derive(Debug, Clone)]
pub struct RingBuffer<T> {
    pos: usize,
    size: usize,
    data: [T; 6],
}

impl<T> RingBuffer<T> {
    pub closed spec fn spec_pos(&self) -> int {
        self.pos as int
    }

    pub closed spec fn spec_size(&self) -> int {
        self.size as int
    }

    pub closed spec fn spec_data(&self) -> Seq<T> {
        self.data@
    }

    pub open spec fn wf(&self) -> bool {
        &&& 0 <= self.spec_pos() < RING_SIZE
        &&& 0 <= self.spec_size() <= RING_SIZE
        &&& self.spec_data().len() == RING_SIZE
    }

    /// The `amt` most recent slots, newest first, at most six of them.
    pub open spec fn recent(&self, amt: int) -> Seq<T> {
        let n = if amt > RING_SIZE {
            RING_SIZE as int
        } else {
            amt
        };
        Seq::new(n as nat, |i: int| self.spec_data()[slot_before(self.spec_pos(), i)])
    }
}

impl<T: Copy + Default> Default for RingBuffer<T> {
    /// An empty ring whose slots hold `T::default()`.
    fn default() -> (r: Self)
        ensures
            r.wf(),
            r.spec_pos() == 0,
            r.spec_size() == 0,
    {
        let v = T::default();
        let data: [T; 6] = [v, v, v, v, v, v];
        RingBuffer { pos: 0, size: 0, data }
    }
}

impl<T: Copy> RingBuffer<T> {
    /// The newest value.
    pub fn sample(&self) -> (r: T)
        requires
            self.wf(),
        ensures
            r == self.spec_data()[self.spec_pos()],
    {
        self.data[self.pos]
    }

    /// The `amt` most recent values, newest first; at most six.
    pub fn get_recent(&self, amt: usize) -> (r: Vec<T>)
        requires
            self.wf(),
        ensures
            r@ == self.recent(amt as int),
    {
        let n: usize = if amt > RING_SIZE {
            RING_SIZE
        } else {
            amt
        };
        let mut res: Vec<T> = Vec::new();
        let mut i: usize = 0;
        while i < n
            invariant
                self.wf(),
                n <= RING_SIZE,
                n == (if amt > RING_SIZE {
                    RING_SIZE as int
                } else {
                    amt as int
                }),
                i <= n,
                res@ =~= self.recent(amt as int).subrange(0, i as int),
            decreases n - i,
        {
            let p: usize = if self.pos < i {
                self.pos + RING_SIZE - i
            } else {
                self.pos - i
            };
            res.push(self.data[p]);
            i = i + 1;
        }
        res
    }

    /// Stores `o` as the newest value, overwriting the oldest once full.
    pub fn push(&mut self, o: T)
        requires
            old(self).wf(),
        ensures
            final(self).wf(),
            final(self).spec_pos() == (old(self).spec_pos() + 1) % (RING_SIZE as int),
            final(self).spec_size() == (if old(self).spec_size() < RING_SIZE {
                old(self).spec_size() + 1
            } else {
                RING_SIZE as int
            }),
            final(self).spec_data() == old(self).spec_data().update(final(self).spec_pos(), o),
    {
        self.pos = (self.pos + 1) % RING_SIZE;
        if self.size < RING_SIZE {
            self.size = self.size + 1;
        }
        self.data[self.pos] = o;
    }

    /// How many slots have been filled, at most six.
    pub fn size(&self) -> (r: usize)
        ensures
            r == self.spec_size(),
    {
        self.size
    }
}

/// After a push the newest value is the one pushed, and the older ones move
/// one step back.
pub proof fn lemma_push_then_recent<T: Copy>(before: RingBuffer<T>, after: RingBuffer<T>, o: T, amt: int)
    requires
        before.wf(),
        after.wf(),
        after.spec_pos() == (before.spec_pos() + 1) % (RING_SIZE as int),
        after.spec_data() == before.spec_data().update(after.spec_pos(), o),
        1 <= amt <= RING_SIZE,
    ensures
        after.recent(amt)[0] == o,
        forall|i: int| 0 <= i < amt - 1 ==> #[trigger] after.recent(amt)[i + 1] == before.recent(amt - 1)[i],
{
    assert forall|i: int| 0 <= i < amt - 1 implies #[trigger] after.recent(amt)[i + 1] == before.recent(
        amt - 1,
    )[i] by {
        let s = slot_before(after.spec_pos(), i + 1);
        assert(s == slot_before(before.spec_pos(), i));
    }
}

} // verus!
