//! Counting semaphore and single-slot signalling object.
//!
//! Both primitives block and wake threads only through the scheduler: the
//! operations here record who must block or say who must be woken, and the
//! caller hands that decision to the scheduler. In the kernel the semaphore
//! word and the parking slot are atomics; here they are mutated under an
//! exclusive borrow and the contracts give the exact effect.

use crate::threads::ThreadHandle;
use vstd::prelude::*;

verus! {

/// Counting semaphore. `signal` increments the count or hands one recorded
/// waiter back to be woken; `wait` takes a unit when one is available, else
/// records the caller, who must then block.
pub struct Semaphore {
    value: i64,
    waiting: Vec<ThreadHandle>,
}

impl Semaphore {
    /// The number of available units.
    pub closed spec fn spec_value(self) -> int {
        self.value as int
    }

    /// The recorded waiters, in arrival order.
    pub closed spec fn spec_waiting(self) -> Seq<ThreadHandle> {
        self.waiting@
    }

    /// A semaphore holding `value` units and no waiters.
    pub fn new(value: i64) -> (r: Self)
        ensures
            r.spec_value() == value as int,
            r.spec_waiting() == Seq::<ThreadHandle>::empty(),
    {
        Semaphore { value, waiting: Vec::new() }
    }

    /// The number of available units, as a runtime value.
    pub fn value(&self) -> (r: i64)
        ensures
            r as int == self.spec_value(),
    {
        self.value
    }

    /// The number of recorded waiters, as a runtime value.
    pub fn waiting_len(&self) -> (r: usize)
        ensures
            r == self.spec_waiting().len(),
    {
        self.waiting.len()
    }

    /// Take one unit if any is available; otherwise record `current` as a
    /// waiter. Returns whether a unit was taken; on `false` the caller must
    /// block until woken by `signal`.
    pub fn wait(&mut self, current: ThreadHandle) -> (acquired: bool)
        ensures
            old(self).spec_value() > 0 ==> acquired && final(self).spec_value() == old(self).spec_value() - 1 && final(self).spec_waiting() == old(self).spec_waiting(),
            old(self).spec_value() <= 0 ==> !acquired && final(self).spec_value() == old(self).spec_value() && final(self).spec_waiting() == old(self).spec_waiting().push(current),
    {
        if self.value > 0 {
            self.value = self.value - 1;
            true
        } else {
            self.waiting.push(current);
            false
        }
    }

    /// Release one unit. If a waiter is recorded, the earliest one is removed
    /// and returned so the caller can wake it; otherwise the count grows.
    pub fn signal(&mut self) -> (r: Option<ThreadHandle>)
        requires
            old(self).spec_value() < i64::MAX,
        ensures
            old(self).spec_waiting().len() > 0 ==> r == Some(old(self).spec_waiting()[0]) && final(self).spec_waiting() == old(self).spec_waiting().drop_first() && final(self).spec_value()
                == old(self).spec_value(),
            old(self).spec_waiting().len() == 0 ==> r == None::<ThreadHandle> && final(self).spec_waiting() == old(self).spec_waiting() && final(self).spec_value() == old(self).spec_value() + 1,
    {
        if self.waiting.len() > 0 {
            let first = self.waiting.remove(0);
            Some(first)
        } else {
            self.value = self.value + 1;
            None
        }
    }
}

/// Single-slot, thread-handle "parking spot" behind the wait-for-event-or-
/// timer idiom: a waiter parks its handle with `set`, a signaller swaps the
/// slot empty with `unbox` and wakes whoever was parked.
pub struct SignallingObject {
    slot: usize,
}

impl SignallingObject {
    /// The parked handle as a raw word; zero when empty.
    pub closed spec fn spec_slot(self) -> usize {
        self.slot
    }

    /// A slot holding the creating thread's handle, as the kernel creates it.
    pub fn new(current: ThreadHandle) -> (r: Self)
        ensures
            r.spec_slot() == current.0,
    {
        SignallingObject { slot: current.0 }
    }

    /// An empty slot.
    pub fn empty() -> (r: Self)
        ensures
            r.spec_slot() == 0,
    {
        SignallingObject { slot: 0 }
    }

    /// Park `value` if the slot is empty; fail and leave the slot alone
    /// otherwise. (A compare-and-swap from zero in the kernel.)
    pub fn set(&mut self, value: ThreadHandle) -> (r: Result<(), ()>)
        ensures
            old(self).spec_slot() == 0 ==> r is Ok && final(self).spec_slot() == value.0,
            old(self).spec_slot() != 0 ==> r is Err && final(self).spec_slot() == old(self).spec_slot(),
    {
        if self.slot == 0 {
            self.slot = value.0;
            Ok(())
        } else {
            Err(())
        }
    }

    /// Read the parked handle without taking it.
    pub fn load(&self) -> (r: Option<ThreadHandle>)
        ensures
            self.spec_slot() == 0 ==> r == None::<ThreadHandle>,
            self.spec_slot() != 0 ==> r == Some(ThreadHandle(self.spec_slot())),
    {
        ThreadHandle::new(self.slot)
    }

    /// Take the parked handle, leaving the slot empty. (An atomic swap with
    /// zero in the kernel.)
    pub fn unbox(&mut self) -> (r: Option<ThreadHandle>)
        ensures
            final(self).spec_slot() == 0,
            old(self).spec_slot() == 0 ==> r == None::<ThreadHandle>,
            old(self).spec_slot() != 0 ==> r == Some(ThreadHandle(old(self).spec_slot())),
    {
        let v = self.slot;
        self.slot = 0;
        ThreadHandle::new(v)
    }

    /// Empty the slot and say who must be woken, if anyone was parked.
    /// The caller hands the returned handle to the scheduler's wake.
    pub fn signal(&mut self) -> (r: Option<ThreadHandle>)
        ensures
            final(self).spec_slot() == 0,
            old(self).spec_slot() == 0 ==> r == None::<ThreadHandle>,
            old(self).spec_slot() != 0 ==> r == Some(ThreadHandle(old(self).spec_slot())),
    {
        self.unbox()
    }
}

} // verus!
