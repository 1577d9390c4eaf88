//! A bounded first-in-first-out buffer of copyable items.
//!
//! In the kernel this ring is filled and drained concurrently over atomic
//! cursors; one slot of the allocation is kept free as the full/empty
//! sentinel, so a ring of capacity `n` holds at most `n - 1` items. The
//! contracts here state the exact queue behavior that the concurrent ring
//! provides: writes append until only the sentinel slot is left, reads pop
//! from the front.

use vstd::prelude::*;

verus! {

/// Bounded FIFO ring of copyable items; one slot is the sentinel, so it
/// holds at most `capacity - 1` items.
pub struct ConcurrentRingBuffer<T> {
    items: Vec<T>,
    capacity: usize,
}

impl<T: Copy> ConcurrentRingBuffer<T> {
    /// The buffered items, front first.
    pub closed spec fn view(self) -> Seq<T> {
        self.items@
    }

    /// The allocation size; one slot more than the buffer ever holds.
    pub closed spec fn spec_capacity(self) -> nat {
        self.capacity as nat
    }

    /// The sentinel slot is never used: the buffer holds fewer items than
    /// its allocation has slots.
    pub closed spec fn wf(self) -> bool {
        self.capacity >= 1 && self.items@.len() < self.capacity
    }

    /// An empty ring over `capacity` slots.
    pub fn with_capacity(capacity: usize) -> (r: Self)
        requires
            capacity >= 1,
        ensures
            r.wf(),
            r.view() == Seq::<T>::empty(),
            r.spec_capacity() == capacity,
    {
        ConcurrentRingBuffer { items: Vec::new(), capacity }
    }

    /// Pop the item at the front, if any.
    pub fn read(&mut self) -> (r: Option<T>)
        requires
            old(self).wf(),
        ensures
            final(self).wf(),
            final(self).spec_capacity() == old(self).spec_capacity(),
            old(self).view().len() > 0 ==> r == Some(old(self).view()[0]) && final(self).view()
                == old(self).view().drop_first(),
            old(self).view().len() == 0 ==> r == None::<T> && final(self).view() == old(self).view(),
    {
        if self.items.len() > 0 {
            let v = self.items.remove(0);
            Some(v)
        } else {
            None
        }
    }

    /// Append `data` at the back; fails once only the sentinel slot is left,
    /// leaving the buffer unchanged.
    pub fn write(&mut self, data: T) -> (r: Result<(), ()>)
        requires
            old(self).wf(),
        ensures
            final(self).wf(),
            final(self).spec_capacity() == old(self).spec_capacity(),
            old(self).view().len() + 1 < old(self).spec_capacity() ==> r is Ok && final(self).view() == old(self).view().push(data),
            old(self).view().len() + 1 >= old(self).spec_capacity() ==> r is Err && final(self).view() == old(self).view(),
    {
        if self.items.len() < self.capacity - 1 {
            self.items.push(data);
            Ok(())
        } else {
            Err(())
        }
    }
}

} // verus!
