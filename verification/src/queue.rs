//! Bounded multi-producer/multi-consumer queues, backed by
//! `crossbeam_queue::ArrayQueue`.
//!
//! The scheduler keeps its four run-queues and the timer ingress queue in
//! lock-free bounded rings. The ring itself comes from the `crossbeam_queue`
//! crate; this module declares that type to the verifier, names its contents
//! and capacity, and wraps the handful of methods the scheduler calls with
//! their first-in-first-out contracts. Everything above these wrappers is
//! verified against those contracts.
//!
//! A run-queue carries thread handles as plain words; the timer ingress queue
//! carries timer events encoded as four words (see [`crate::timer`]).

use vstd::prelude::*;

verus! {

#[verifier::external_type_specification]
#[verifier::external_body]
#[verifier::reject_recursive_types(T)]
pub struct ExArrayQueue<T>(crossbeam_queue::ArrayQueue<T>);

/// The elements a handle queue holds, front first.
pub uninterp spec fn tq_contents(q: crossbeam_queue::ArrayQueue<usize>) -> Seq<usize>;

/// The fixed capacity a handle queue was created with.
pub uninterp spec fn tq_capacity(q: crossbeam_queue::ArrayQueue<usize>) -> nat;

/// The encoded timer events an event queue holds, front first.
pub uninterp spec fn eq_contents(q: crossbeam_queue::ArrayQueue<(usize, usize, usize, usize)>) -> Seq<
    (usize, usize, usize, usize),
>;

/// The fixed capacity an event queue was created with.
pub uninterp spec fn eq_capacity(q: crossbeam_queue::ArrayQueue<(usize, usize, usize, usize)>) -> nat;

/// Relies on `ArrayQueue::new`: a fresh queue of the given capacity is empty.
/// (`new` panics on a zero capacity, and on one so large that the stamp
/// arithmetic would overflow; the bound here keeps both out.)
#[verifier::external_body]
fn tq_new(capacity: usize) -> (r: crossbeam_queue::ArrayQueue<usize>)
    requires
        1 <= capacity <= 0x1000_0000,
    ensures
        tq_contents(r) == Seq::<usize>::empty(),
        tq_capacity(r) == capacity as nat,
{
    crossbeam_queue::ArrayQueue::new(capacity)
}

/// Relies on `ArrayQueue::push`: appends at the tail when the queue is not
/// full, and hands the value back unchanged when it is.
#[verifier::external_body]
fn tq_push(q: &mut crossbeam_queue::ArrayQueue<usize>, value: usize) -> (r: Result<(), usize>)
    ensures
        tq_capacity(*final(q)) == tq_capacity(*old(q)),
        tq_contents(*old(q)).len() < tq_capacity(*old(q)) ==> r is Ok && tq_contents(*final(q)) == tq_contents(*old(q)).push(value),
        tq_contents(*old(q)).len() >= tq_capacity(*old(q)) ==> (r matches Err(v) && v == value)
            && tq_contents(*final(q)) == tq_contents(*old(q)),
{
    q.push(value)
}

/// Relies on `ArrayQueue::pop`: removes and returns the element at the head,
/// or returns nothing when the queue is empty.
#[verifier::external_body]
fn tq_pop(q: &mut crossbeam_queue::ArrayQueue<usize>) -> (r: Option<usize>)
    ensures
        tq_capacity(*final(q)) == tq_capacity(*old(q)),
        tq_contents(*old(q)).len() > 0 ==> r == Some(tq_contents(*old(q))[0]) && tq_contents(*final(q)) == tq_contents(*old(q)).drop_first(),
        tq_contents(*old(q)).len() == 0 ==> r == None::<usize> && tq_contents(*final(q))
            == tq_contents(*old(q)),
{
    q.pop()
}

/// Relies on `ArrayQueue::len`: the number of elements held.
#[verifier::external_body]
fn tq_count(q: &crossbeam_queue::ArrayQueue<usize>) -> (r: usize)
    ensures
        r == tq_contents(*q).len(),
{
    q.len()
}

/// Relies on `ArrayQueue::capacity`: the fixed capacity the queue was
/// created with.
#[verifier::external_body]
fn tq_cap(q: &crossbeam_queue::ArrayQueue<usize>) -> (r: usize)
    ensures
        r == tq_capacity(*q),
{
    q.capacity()
}

/// Relies on `ArrayQueue::new`; as `tq_new`, for the event element type.
#[verifier::external_body]
fn eq_new(capacity: usize) -> (r: crossbeam_queue::ArrayQueue<(usize, usize, usize, usize)>)
    requires
        1 <= capacity <= 0x1000_0000,
    ensures
        eq_contents(r) == Seq::<(usize, usize, usize, usize)>::empty(),
        eq_capacity(r) == capacity as nat,
{
    crossbeam_queue::ArrayQueue::new(capacity)
}

/// Relies on `ArrayQueue::push`; as `tq_push`, for the event element type.
#[verifier::external_body]
fn eq_push(
    q: &mut crossbeam_queue::ArrayQueue<(usize, usize, usize, usize)>,
    value: (usize, usize, usize, usize),
) -> (r: Result<(), (usize, usize, usize, usize)>)
    ensures
        eq_capacity(*final(q)) == eq_capacity(*old(q)),
        eq_contents(*old(q)).len() < eq_capacity(*old(q)) ==> r is Ok && eq_contents(*final(q)) == eq_contents(*old(q)).push(value),
        eq_contents(*old(q)).len() >= eq_capacity(*old(q)) ==> (r matches Err(v) && v == value) && eq_contents(*final(q)) == eq_contents(*old(q)),
{
    q.push(value)
}

/// Relies on `ArrayQueue::pop`; as `tq_pop`, for the event element type.
#[verifier::external_body]
fn eq_pop(q: &mut crossbeam_queue::ArrayQueue<(usize, usize, usize, usize)>) -> (r: Option<
    (usize, usize, usize, usize),
>)
    ensures
        eq_capacity(*final(q)) == eq_capacity(*old(q)),
        eq_contents(*old(q)).len() > 0 ==> r == Some(eq_contents(*old(q))[0]) && eq_contents(*final(q)) == eq_contents(*old(q)).drop_first(),
        eq_contents(*old(q)).len() == 0 ==> r == None::<(usize, usize, usize, usize)>
            && eq_contents(*final(q)) == eq_contents(*old(q)),
{
    q.pop()
}

/// A bounded queue of thread handles: one run-queue of the scheduler.
pub struct ThreadQueue {
    q: crossbeam_queue::ArrayQueue<usize>,
}

impl ThreadQueue {
    /// The handles held, front first.
    pub closed spec fn contents(self) -> Seq<usize> {
        tq_contents(self.q)
    }

    /// The fixed capacity.
    pub closed spec fn capacity(self) -> nat {
        tq_capacity(self.q)
    }

    /// An empty queue that can hold `capacity` handles.
    pub fn with_capacity(capacity: usize) -> (r: Self)
        requires
            1 <= capacity <= 0x1000_0000,
        ensures
            r.contents() == Seq::<usize>::empty(),
            r.capacity() == capacity as nat,
    {
        ThreadQueue { q: tq_new(capacity) }
    }

    /// Append a handle at the tail; on a full queue, report failure and leave
    /// the contents unchanged.
    pub fn enqueue(&mut self, handle: usize) -> (r: Result<(), ()>)
        ensures
            final(self).capacity() == old(self).capacity(),
            old(self).contents().len() < old(self).capacity() ==> r is Ok && final(self).contents() == old(self).contents().push(handle),
            old(self).contents().len() >= old(self).capacity() ==> r is Err && final(self).contents() == old(self).contents(),
    {
        match tq_push(&mut self.q, handle) {
            Ok(()) => Ok(()),
            Err(_) => Err(()),
        }
    }

    /// Remove and return the handle at the head, if any.
    pub fn dequeue(&mut self) -> (r: Option<usize>)
        ensures
            final(self).capacity() == old(self).capacity(),
            old(self).contents().len() > 0 ==> r == Some(old(self).contents()[0]) && final(self).contents() == old(self).contents().drop_first(),
            old(self).contents().len() == 0 ==> r == None::<usize> && final(self).contents() == old(self).contents(),
    {
        tq_pop(&mut self.q)
    }

    /// The number of handles held.
    pub fn len(&self) -> (r: usize)
        ensures
            r == self.contents().len(),
    {
        tq_count(&self.q)
    }

    /// The fixed capacity, as a runtime value.
    pub fn capacity_exec(&self) -> (r: usize)
        ensures
            r == self.capacity(),
    {
        tq_cap(&self.q)
    }
}

/// A bounded queue of encoded timer events: the timer ingress queue.
pub struct EventQueue {
    q: crossbeam_queue::ArrayQueue<(usize, usize, usize, usize)>,
}

impl EventQueue {
    /// The encoded events held, front first.
    pub closed spec fn contents(self) -> Seq<(usize, usize, usize, usize)> {
        eq_contents(self.q)
    }

    /// The fixed capacity.
    pub closed spec fn capacity(self) -> nat {
        eq_capacity(self.q)
    }

    /// An empty queue that can hold `capacity` events.
    pub fn with_capacity(capacity: usize) -> (r: Self)
        requires
            1 <= capacity <= 0x1000_0000,
        ensures
            r.contents() == Seq::<(usize, usize, usize, usize)>::empty(),
            r.capacity() == capacity as nat,
    {
        EventQueue { q: eq_new(capacity) }
    }

    /// Append an encoded event at the tail; on a full queue, hand it back.
    pub fn enqueue(&mut self, event: (usize, usize, usize, usize)) -> (r: Result<
        (),
        (usize, usize, usize, usize),
    >)
        ensures
            final(self).capacity() == old(self).capacity(),
            old(self).contents().len() < old(self).capacity() ==> r is Ok && final(self).contents() == old(self).contents().push(event),
            old(self).contents().len() >= old(self).capacity() ==> (r matches Err(e) && e == event) && final(self).contents() == old(self).contents(),
    {
        eq_push(&mut self.q, event)
    }

    /// Remove and return the event at the head, if any.
    pub fn dequeue(&mut self) -> (r: Option<(usize, usize, usize, usize)>)
        ensures
            final(self).capacity() == old(self).capacity(),
            old(self).contents().len() > 0 ==> r == Some(old(self).contents()[0]) && final(self).contents() == old(self).contents().drop_first(),
            old(self).contents().len() == 0 ==> r == None::<(usize, usize, usize, usize)> && final(self).contents() == old(self).contents(),
    {
        eq_pop(&mut self.q)
    }
}

} // verus!
