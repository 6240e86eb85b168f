//! The tracker of pending interrupts, between the interrupt context that
//! records them and the normal context that routes them to programs.
use vstd::prelude::*;

verus! {

/// The interrupts recorded as pending and not yet drained, in the order
/// they fired.
///
/// The tracker holds at most `capacity` interrupts; an interrupt is masked
/// when it is recorded and stays masked until its program acknowledges it,
/// so no interrupt is pending twice.
pub struct PendingInterrupts {
    slots: Vec<u32>,
    count: usize,
}

impl PendingInterrupts {
    /// The pending interrupts, oldest first.
    pub closed spec fn view(&self) -> Seq<u32> {
        self.slots@.subrange(0, self.count as int)
    }

    /// How many interrupts the tracker can hold.
    pub closed spec fn capacity(&self) -> nat {
        self.slots@.len()
    }

    /// The count of pending interrupts lies within the slots.
    pub closed spec fn wf(&self) -> bool {
        self.count <= self.slots@.len()
    }

    /// A tracker with room for `capacity` pending interrupts and none
    /// pending.
    pub fn new(capacity: usize) -> (tracker: PendingInterrupts)
        ensures
            tracker.wf(),
            tracker@ == Seq::<u32>::empty(),
            tracker.capacity() == capacity,
    {
        let mut slots: Vec<u32> = Vec::new();
        let mut i: usize = 0;
        while i < capacity
            invariant
                i <= capacity,
                slots@.len() == i,
            decreases capacity - i,
        {
            slots.push(0);
            i = i + 1;
        }
        let tracker = PendingInterrupts { slots, count: 0 };
        proof {
            assert(tracker@ =~= Seq::<u32>::empty());
        }
        tracker
    }

    /// How many interrupts the tracker can hold.
    pub fn slot_count(&self) -> (n: usize)
        ensures
            n == self.capacity(),
    {
        self.slots.len()
    }

    /// How many interrupts are pending.
    pub fn pending_count(&self) -> (n: usize)
        requires
            self.wf(),
        ensures
            n == self@.len(),
    {
        self.count
    }

    /// Records that `interrupt_id` fired; it is appended after the
    /// interrupts already pending.
    pub fn record_pending_interrupt(&mut self, interrupt_id: u32)
        requires
            old(self).wf(),
            old(self)@.len() < old(self).capacity(),
        ensures
            final(self).wf(),
            final(self)@ == old(self)@.push(interrupt_id),
            final(self).capacity() == old(self).capacity(),
    {
        let count = self.count;
        let capacity = self.slots.len();
        assert(count < capacity);
        self.slots.set(count, interrupt_id);
        self.count = count + 1;
        proof {
            assert(self@ =~= old(self)@.push(interrupt_id));
        }
    }

    /// Whether any interrupt is pending.
    pub fn pending_any(&self) -> (any: bool)
        requires
            self.wf(),
        ensures
            any == (self@.len() > 0),
    {
        self.count != 0
    }

    /// Moves every pending interrupt, oldest first, to the front of `buf`
    /// and returns how many there were; none is pending afterwards and the
    /// rest of `buf` is unchanged.
    pub fn drain_pending_into_buf(&mut self, buf: &mut Vec<u32>) -> (drained: usize)
        requires
            old(self).wf(),
            old(buf)@.len() >= old(self).capacity(),
        ensures
            final(self).wf(),
            drained == old(self)@.len(),
            drained <= old(self).capacity(),
            final(buf)@.len() == old(buf)@.len(),
            final(buf)@.subrange(0, drained as int) == old(self)@,
            final(buf)@.subrange(drained as int, final(buf)@.len() as int) == old(buf)@.subrange(
                drained as int,
                old(buf)@.len() as int,
            ),
            final(self)@ == Seq::<u32>::empty(),
            final(self).capacity() == old(self).capacity(),
    {
        let count = self.count;
        let mut index: usize = 0;
        while index < count
            invariant
                count == old(self)@.len(),
                count <= self.slots@.len(),
                self.slots@ == old(self).slots@,
                self.count == count,
                buf@.len() == old(buf)@.len(),
                old(buf)@.len() >= self.slots@.len(),
                index <= count,
                forall|k: int| 0 <= k < index ==> #[trigger] buf@[k] == self.slots@[k],
                forall|k: int| index <= k < buf@.len() ==> #[trigger] buf@[k] == old(buf)@[k],
            decreases count - index,
        {
            buf.set(index, self.slots[index]);
            index = index + 1;
        }
        self.count = 0;
        proof {
            assert(buf@.subrange(0, count as int) =~= old(self)@);
            assert(buf@.subrange(count as int, buf@.len() as int) =~= old(buf)@.subrange(
                count as int,
                old(buf)@.len() as int,
            ));
            assert(self@ =~= Seq::<u32>::empty());
        }
        count
    }
}

} // verus!
