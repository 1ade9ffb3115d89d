//! The typed ring queue.
use crate::index::{consumer_step, indices_ok, live_count, next_of, producer_step, slot_at};
use crate::layout::indexing_adjusted_capacity;
use vstd::prelude::*;

verus! {

/// What an enqueue does to the queue's contents, and whether it accepts.
pub open spec fn enqueue_model<T>(q: Seq<T>, capacity: int, item: T) -> (Seq<T>, bool) {
    if q.len() < capacity {
        (q.push(item), true)
    } else {
        (q, false)
    }
}

/// What a dequeue does to the queue's contents, and what it hands out.
pub open spec fn dequeue_model<T>(q: Seq<T>) -> (Seq<T>, Option<T>) {
    if q.len() > 0 {
        (q.drop_first(), Some(q[0]))
    } else {
        (q, None)
    }
}

/// A fixed-capacity FIFO queue of `T` over `capacity + 2` slots.
///
/// Items are copied in and out; the queue never drops what it holds.
pub struct RingQueue<T> {
    slots: Vec<Option<T>>,
    capacity: usize,
    read_index: u32,
    write_index: u32,
}

impl<T: Copy> RingQueue<T> {
    pub closed spec fn capacity_spec(&self) -> int {
        self.capacity as int
    }

    pub closed spec fn wf(&self) -> bool {
        let n = self.slots@.len() as int;
        &&& self.capacity >= 1
        &&& n == self.capacity + 2
        &&& indices_ok(n, self.read_index as int, self.write_index as int)
        &&& forall|k: int|
            0 <= k < live_count(n, self.read_index as int, self.write_index as int) ==> (
            #[trigger] self.slots@[slot_at(n, self.read_index as int, k)]) is Some
    }

    /// The items held, oldest first.
    pub closed spec fn view(&self) -> Seq<T> {
        let n = self.slots@.len() as int;
        Seq::new(
            live_count(n, self.read_index as int, self.write_index as int) as nat,
            |k: int| self.slots@[slot_at(n, self.read_index as int, k)]->Some_0,
        )
    }

    /// An empty queue that can hold `capacity` items.
    pub fn new(capacity: usize) -> (r: Self)
        requires
            1 <= capacity,
            capacity + 2 <= u32::MAX,
        ensures
            r.wf(),
            r@ == Seq::<T>::empty(),
            r.capacity_spec() == capacity,
    {
        let slot_count = indexing_adjusted_capacity(capacity);
        let mut slots: Vec<Option<T>> = Vec::new();
        let mut i: usize = 0;
        while i < slot_count
            invariant
                i <= slot_count,
                slots@.len() == i,
            decreases slot_count - i,
        {
            slots.push(None);
            i = i + 1;
        }
        RingQueue { slots, capacity, read_index: (slot_count - 1) as u32, write_index: 0 }
    }

    /// The number of items the queue can hold.
    pub fn capacity(&self) -> (r: usize)
        ensures
            r == self.capacity_spec(),
    {
        self.capacity
    }

    /// Copies `item` in at the back. Returns `false`, changing nothing, when
    /// the queue already holds `capacity` items.
    pub fn enqueue_item(&mut self, item: &T) -> (r: bool)
        requires
            old(self).wf(),
        ensures
            final(self).wf(),
            final(self).capacity_spec() == old(self).capacity_spec(),
            (final(self)@, r) == enqueue_model(old(self)@, old(self).capacity_spec(), *item),
    {
        let ghost n = self.slots@.len() as int;
        let ghost r0 = self.read_index as int;
        let ghost w0 = self.write_index as int;
        let slot_count = self.slots.len() as u32;
        match producer_step(slot_count, self.write_index, self.read_index) {
            None => false,
            Some(next) => {
                let ghost len = live_count(n, r0, w0);
                assert(slot_at(n, r0, len) == w0);
                self.slots.set(self.write_index as usize, Some(*item));
                self.write_index = next;
                assert(forall|k: int| 0 <= k < len ==> slot_at(n, r0, k) != w0);
                assert(self@ =~= old(self)@.push(*item));
                true
            },
        }
    }

    /// Copies the oldest item out into `item` and removes it. Returns `false`,
    /// changing nothing, when the queue is empty.
    pub fn dequeue_item(&mut self, item: &mut Option<T>) -> (r: bool)
        requires
            old(self).wf(),
        ensures
            final(self).wf(),
            final(self).capacity_spec() == old(self).capacity_spec(),
            r == (old(self)@.len() > 0),
            r ==> (final(self)@, *final(item)) == dequeue_model(old(self)@),
            !r ==> final(self)@ == old(self)@ && *final(item) == *old(item),
    {
        let ghost n = self.slots@.len() as int;
        let ghost r0 = self.read_index as int;
        let slot_count = self.slots.len() as u32;
        match consumer_step(slot_count, self.read_index, self.write_index) {
            None => false,
            Some(next) => {
                *item = self.slots[next as usize];
                self.read_index = next;
                assert(forall|k: int| 0 <= k < n - 1 ==> slot_at(n, next as int, k) == slot_at(n, r0, k + 1));
                assert(self@ =~= old(self)@.drop_first());
                true
            },
        }
    }

    /// Releases the queue. Items still held are not dropped.
    pub fn dispose(self) {
    }
}

} // verus!
