//! Deadlines and timer events.
//!
//! The clock itself lives with the machine layer: whoever drives the
//! scheduler reads the monotonic counter and passes the reading in. A `Timer`
//! is an opaque deadline on that counter, with zero meaning "just": already
//! expired. A `TimerEvent` pairs a deadline with what to do when it passes:
//! wake one sleeping thread, or post a timer message to a window.
//!
//! Events travel to the timer thread through a bounded lock-free queue of
//! plain words; the encoding and its inverse live here, with a round-trip
//! proof.

use crate::threads::ThreadHandle;
use vstd::prelude::*;

verus! {

/// A reading of the monotonic clock, in timer ticks.
#[derive(Clone, Copy, Debug, PartialEq, Eq, Structural, Default)]
pub struct TimeSpec(pub usize);

impl TimeSpec {
    /// Sum of two readings (a base plus a duration in ticks).
    pub fn add_ticks(self, rhs: TimeSpec) -> (r: TimeSpec)
        requires
            self.0 + rhs.0 <= usize::MAX,
        ensures
            r.0 == self.0 + rhs.0,
    {
        TimeSpec(self.0 + rhs.0)
    }
}

/// An opaque deadline; zero is "just", meaning already expired.
#[derive(Clone, Copy, Debug, PartialEq, Eq, Structural, Default)]
pub struct Timer {
    pub deadline: TimeSpec,
}

impl Timer {
    /// Whether the deadline still lies in the future at time `now`.
    pub open spec fn spec_until(self, now: TimeSpec) -> bool {
        self.deadline.0 != 0 && now.0 < self.deadline.0
    }

    /// The already-expired timer.
    pub fn just() -> (r: Self)
        ensures
            r.deadline.0 == 0,
            forall|now: TimeSpec| !r.spec_until(now),
    {
        Timer { deadline: TimeSpec(0) }
    }

    /// A deadline `duration` ticks after `now`.
    pub fn new(now: TimeSpec, duration: TimeSpec) -> (r: Self)
        requires
            now.0 + duration.0 <= usize::MAX,
        ensures
            r.deadline.0 == now.0 + duration.0,
    {
        Timer { deadline: now.add_ticks(duration) }
    }

    /// Whether this is the already-expired timer.
    pub fn is_just(&self) -> (r: bool)
        ensures
            r == (self.deadline.0 == 0),
    {
        self.deadline.0 == 0
    }

    /// True while the deadline lies in the future; an already-expired timer
    /// is never in the future.
    pub fn until(&self, now: TimeSpec) -> (r: bool)
        ensures
            r == self.spec_until(now),
    {
        if self.is_just() {
            false
        } else {
            now.0 < self.deadline.0
        }
    }
}

/// Handle into the window system; opaque here. A window timer event posts a
/// message to this window's queue, which the window layer owns.
#[derive(Clone, Copy, Debug, PartialEq, Eq, Structural)]
pub struct WindowHandle(pub usize);

/// What a timer event does when it fires.
#[derive(Clone, Copy, Debug, PartialEq, Eq, Structural)]
pub enum TimerType {
    /// Wake this sleeping thread.
    OneShot(ThreadHandle),
    /// Post a timer message with this identifier to this window.
    Window(WindowHandle, usize),
}

/// A deadline plus the action taken when it passes.
#[derive(Clone, Copy, Debug, PartialEq, Eq, Structural)]
pub struct TimerEvent {
    pub timer: Timer,
    pub timer_type: TimerType,
}

impl TimerEvent {
    /// An event that wakes `current` when `timer` expires.
    pub fn one_shot(timer: Timer, current: ThreadHandle) -> (r: Self)
        ensures
            r.timer == timer,
            r.timer_type == TimerType::OneShot(current),
    {
        TimerEvent { timer, timer_type: TimerType::OneShot(current) }
    }

    /// An event that posts timer message `timer_id` to `window` when `timer`
    /// expires.
    pub fn window(window: WindowHandle, timer_id: usize, timer: Timer) -> (r: Self)
        ensures
            r.timer == timer,
            r.timer_type == TimerType::Window(window, timer_id),
    {
        TimerEvent { timer, timer_type: TimerType::Window(window, timer_id) }
    }

    /// Whether the event's deadline still lies in the future at `now`.
    pub fn until(&self, now: TimeSpec) -> (r: bool)
        ensures
            r == self.timer.spec_until(now),
    {
        self.timer.until(now)
    }

    /// The event as four plain words, for the ingress queue.
    pub open spec fn spec_encode(self) -> (usize, usize, usize, usize) {
        match self.timer_type {
            TimerType::OneShot(h) => (self.timer.deadline.0, 0usize, h.0, 0usize),
            TimerType::Window(w, id) => (self.timer.deadline.0, 1usize, w.0, id),
        }
    }

    /// The event a word encoding stands for, if it is a valid encoding.
    pub open spec fn spec_decode(t: (usize, usize, usize, usize)) -> Option<TimerEvent> {
        if t.1 == 0 && t.3 == 0 {
            Some(
                TimerEvent {
                    timer: Timer { deadline: TimeSpec(t.0) },
                    timer_type: TimerType::OneShot(ThreadHandle(t.2)),
                },
            )
        } else if t.1 == 1 {
            Some(
                TimerEvent {
                    timer: Timer { deadline: TimeSpec(t.0) },
                    timer_type: TimerType::Window(WindowHandle(t.2), t.3),
                },
            )
        } else {
            None
        }
    }

    /// Encode for the ingress queue.
    pub fn encode(&self) -> (r: (usize, usize, usize, usize))
        ensures
            r == self.spec_encode(),
    {
        match self.timer_type {
            TimerType::OneShot(h) => (self.timer.deadline.0, 0, h.0, 0),
            TimerType::Window(w, id) => (self.timer.deadline.0, 1, w.0, id),
        }
    }

    /// Decode one word tuple from the ingress queue.
    pub fn decode(t: (usize, usize, usize, usize)) -> (r: Option<TimerEvent>)
        ensures
            r == Self::spec_decode(t),
    {
        if t.1 == 0 && t.3 == 0 {
            Some(
                TimerEvent {
                    timer: Timer { deadline: TimeSpec(t.0) },
                    timer_type: TimerType::OneShot(ThreadHandle(t.2)),
                },
            )
        } else if t.1 == 1 {
            Some(
                TimerEvent {
                    timer: Timer { deadline: TimeSpec(t.0) },
                    timer_type: TimerType::Window(WindowHandle(t.2), t.3),
                },
            )
        } else {
            None
        }
    }
}

/// Decoding an encoded event gives the event back: nothing is lost on the way
/// through the ingress queue.
pub proof fn lemma_encode_decode_roundtrip(e: TimerEvent)
    ensures
        TimerEvent::spec_decode(e.spec_encode()) == Some(e),
{
}

/// A pending list is ordered by deadline, earliest first.
pub open spec fn sorted_by_deadline(s: Seq<TimerEvent>) -> bool {
    forall|i: int, j: int|
        0 <= i < j < s.len() ==> #[trigger] s[i].timer.deadline.0 <= #[trigger] s[j].timer.deadline.0
}

/// Insert an event into a deadline-ordered pending list, keeping the order.
/// The list gains exactly this event.
pub fn insert_sorted(events: &mut Vec<TimerEvent>, event: TimerEvent)
    requires
        sorted_by_deadline(old(events)@),
        old(events)@.len() < usize::MAX,
    ensures
        sorted_by_deadline(final(events)@),
        final(events)@.to_multiset() == old(events)@.to_multiset().insert(event),
        final(events)@.len() == old(events)@.len() + 1,
{
    let ghost orig = events@;
    let mut i: usize = 0;
    while i < events.len() && events[i].timer.deadline.0 <= event.timer.deadline.0
        invariant
            i <= events@.len(),
            events@ == orig,
            forall|k: int| 0 <= k < i ==> #[trigger] events@[k].timer.deadline.0 <= event.timer.deadline.0,
        decreases events@.len() - i,
    {
        i = i + 1;
    }
    proof {
        assert(forall|k: int|
            i <= k < orig.len() ==> event.timer.deadline.0 < #[trigger] orig[k].timer.deadline.0);
    }
    events.insert(i, event);
    proof {
        assert(events@ =~= orig.subrange(0, i as int).push(event) + orig.subrange(
            i as int,
            orig.len() as int,
        ));
        assert(sorted_by_deadline(events@)) by {
            assert(forall|k: int| 0 <= k < i ==> #[trigger] events@[k] == orig[k]);
            assert(events@[i as int] == event);
            assert(forall|k: int|
                i < k < events@.len() ==> #[trigger] events@[k] == orig[k - 1]);
        }
        lemma_insert_multiset(orig, event, i as int);
    }
}

proof fn lemma_insert_multiset(s: Seq<TimerEvent>, e: TimerEvent, i: int)
    requires
        0 <= i <= s.len(),
    ensures
        (s.subrange(0, i).push(e) + s.subrange(i, s.len() as int)).to_multiset()
            == s.to_multiset().insert(e),
{
    let left = s.subrange(0, i);
    let right = s.subrange(i, s.len() as int);
    left.to_multiset_ensures();
    vstd::seq_lib::lemma_multiset_commutative(left.push(e), right);
    vstd::seq_lib::lemma_multiset_commutative(left, right);
    assert(left + right =~= s);
    assert(left.push(e).to_multiset() =~= left.to_multiset().insert(e));
    assert((left.push(e) + right).to_multiset() == left.to_multiset().insert(e).add(
        right.to_multiset(),
    ));
    assert(left.to_multiset().insert(e).add(right.to_multiset()) =~= left.to_multiset().add(
        right.to_multiset(),
    ).insert(e));
}

} // verus!
