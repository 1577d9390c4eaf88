//! Thread identity, priority bands, quanta, the thread record and the pool
//! that owns every live record.
//!
//! A thread is referred to only by its handle, a non-zero identifier drawn
//! from a monotonic counter; handles never reappear. The pool maps handles to
//! records; it is the single owner of every record from creation until the
//! retire path drops a zombie.

use crate::flags::AtomicBitflags;
use crate::semaphore::Semaphore;
use vstd::prelude::*;
use vstd::string::StringSliceAdditionalSpecFns;

verus! {

/// Process-grouping tag; zero for kernel and idle threads.
#[derive(Clone, Copy, Debug, PartialEq, Eq, Structural, Default)]
pub struct ProcessId(pub usize);

/// Non-zero stable identifier of a thread: the only external reference.
#[derive(Clone, Copy, Debug, PartialEq, Eq, Structural)]
pub struct ThreadHandle(pub usize);

impl ThreadHandle {
    /// Wrap a raw word; zero stands for "no thread" and yields nothing.
    pub fn new(val: usize) -> (r: Option<Self>)
        ensures
            val == 0 ==> r == None::<ThreadHandle>,
            val != 0 ==> r == Some(ThreadHandle(val)),
    {
        if val == 0 {
            None
        } else {
            Some(ThreadHandle(val))
        }
    }

    /// The raw word of the handle.
    pub fn as_usize(&self) -> (r: usize)
        ensures
            r == self.0,
    {
        self.0
    }
}

/// Priority band of a thread. Each useful band has its own run-queue;
/// `Idle` threads belong to one CPU each and are never enqueued.
#[derive(Clone, Copy, Debug, PartialEq, Eq, Structural)]
pub enum Priority {
    Idle,
    Low,
    Normal,
    High,
    Realtime,
}

impl Priority {
    /// Whether threads of this band compete for a run-queue.
    pub fn is_useful(self) -> (r: bool)
        ensures
            r == (self != Priority::Idle),
    {
        match self {
            Priority::Idle => false,
            _ => true,
        }
    }

    /// The band's position, low to high: the digit the statistics listing
    /// prints.
    pub open spec fn spec_as_index(self) -> usize {
        match self {
            Priority::Idle => 0,
            Priority::Low => 1,
            Priority::Normal => 2,
            Priority::High => 3,
            Priority::Realtime => 4,
        }
    }

    pub fn as_index(self) -> (r: usize)
        ensures
            r == self.spec_as_index(),
    {
        match self {
            Priority::Idle => 0,
            Priority::Low => 1,
            Priority::Normal => 2,
            Priority::High => 3,
            Priority::Realtime => 4,
        }
    }
}

/// Default quantum, in timer ticks, of each priority band. `Realtime` and
/// `Idle` carry the minimum because neither is preempted by quantum expiry:
/// realtime threads run to a voluntary yield, idle threads only run alone.
pub open spec fn spec_default_quantum(priority: Priority) -> u8 {
    match priority {
        Priority::High => 25,
        Priority::Normal => 10,
        Priority::Low => 5,
        _ => 1,
    }
}

/// Remaining and default timer ticks before a thread is preempted.
#[derive(Clone, Copy, Debug, PartialEq, Eq, Structural)]
pub struct Quantum {
    pub current: u8,
    pub default: u8,
}

impl Quantum {
    /// A full quantum of `value` ticks.
    pub fn new(value: u8) -> (r: Self)
        ensures
            r.current == value,
            r.default == value,
    {
        Quantum { current: value, default: value }
    }

    /// Refill the remaining ticks to the default.
    pub fn reset(&mut self)
        ensures
            final(self).current == old(self).default,
            final(self).default == old(self).default,
    {
        self.current = self.default;
    }

    /// Burn one tick. Returns true exactly when the quantum expires, in which
    /// case it is refilled for the next run.
    pub fn consume(&mut self) -> (expired: bool)
        ensures
            final(self).default == old(self).default,
            old(self).current > 1 ==> !expired && final(self).current == old(self).current - 1,
            old(self).current <= 1 ==> expired && final(self).current == old(self).default,
    {
        if self.current > 1 {
            self.current = self.current - 1;
            false
        } else {
            self.current = self.default;
            true
        }
    }
}

impl From<Priority> for Quantum {
    /// The full default quantum of a priority band.
    fn from(priority: Priority) -> (r: Quantum) {
        match priority {
            Priority::High => Quantum::new(25),
            Priority::Normal => Quantum::new(10),
            Priority::Low => Quantum::new(5),
            _ => Quantum::new(1),
        }
    }
}

impl vstd::std_specs::convert::FromSpecImpl<Priority> for Quantum {
    open spec fn obeys_from_spec() -> bool {
        true
    }

    open spec fn from_spec(priority: Priority) -> Quantum {
        Quantum { current: spec_default_quantum(priority), default: spec_default_quantum(priority) }
    }
}

/// Length of the name buffer: one length byte and up to 31 name bytes.
pub const THREAD_NAME_LENGTH: usize = 32;

/// Write `name` into a length-prefixed buffer: byte zero holds the stored
/// length, bytes one onward hold at most 31 bytes of the name.
pub fn set_name_array(array: &mut Vec<u8>, name: &[u8])
    requires
        old(array)@.len() == THREAD_NAME_LENGTH,
    ensures
        final(array)@.len() == THREAD_NAME_LENGTH,
        final(array)@[0] == stored_name_len(name@) as u8,
        forall|j: int|
            0 <= j < stored_name_len(name@) ==> final(array)@[j + 1] == name@[j],
        forall|j: int|
            stored_name_len(name@) < j < THREAD_NAME_LENGTH ==> final(array)@[j] == old(array)@[j],
{
    let mut i: usize = 1;
    let mut j: usize = 0;
    while j < name.len() && i < THREAD_NAME_LENGTH
        invariant
            1 <= i <= THREAD_NAME_LENGTH,
            j == i - 1,
            j <= name@.len(),
            array@.len() == THREAD_NAME_LENGTH,
            i < THREAD_NAME_LENGTH ==> j == min_usize(name@.len() as int, j as int),
            forall|k: int| 0 <= k < j ==> array@[k + 1] == name@[k],
            forall|k: int| j < k < THREAD_NAME_LENGTH ==> array@[k] == old(array)@[k],
            array@[0] == old(array)@[0],
        decreases name@.len() - j,
    {
        let c = name[j];
        array.set(i, c);
        i = i + 1;
        j = j + 1;
    }
    array.set(0, (i - 1) as u8);
}

/// How many bytes of a name fit in the buffer: all of it up to 31.
pub open spec fn stored_name_len(name: Seq<u8>) -> int {
    min_usize(name.len() as int, (THREAD_NAME_LENGTH - 1) as int)
}

pub open spec fn min_usize(a: int, b: int) -> int {
    if a <= b {
        a
    } else {
        b
    }
}

/// One live thread's record, owned by the pool. The architectural context
/// (register-save area and stack) lives with the machine layer, keyed by the
/// same handle; only the CPU running a thread touches its context.
pub struct RawThread {
    /// Process-grouping tag.
    pub pid: ProcessId,
    /// This thread's handle.
    pub handle: ThreadHandle,
    /// Join semaphore, signalled on exit.
    pub sem: Semaphore,
    /// Lifecycle flag word.
    pub attribute: AtomicBitflags,
    /// Priority band; fixed for the thread's life.
    pub priority: Priority,
    /// Remaining and default preemption ticks.
    pub quantum: Quantum,
    /// Clock reading when this thread was last dispatched.
    pub measure: usize,
    /// Accumulated running time, in clock units.
    pub cpu_time: usize,
    /// Running time since the statistics thread last looked, read-and-zeroed
    /// about once a second.
    pub load0: u32,
    /// Latest measured load, in thousandths of one CPU.
    pub load: u32,
    /// Queued asynchronous task tags, present once the thread has opted in.
    /// The tasks themselves are run by the host thread outside this crate.
    pub executor: Option<Vec<usize>>,
    /// Tag of the thread's opaque personality context, if it has one. The
    /// machine layer keys the context object and its exit hook by this tag;
    /// `exit` hands the tag back so the hook runs.
    pub personality: Option<usize>,
    /// Length-prefixed name buffer.
    pub name: Vec<u8>,
}

impl RawThread {
    /// A freshly created record: empty flags, full quantum for the band,
    /// zeroed statistics, no executor, the name stored length-prefixed.
    pub fn new(
        handle: ThreadHandle,
        pid: ProcessId,
        priority: Priority,
        name: &str,
        personality: Option<usize>,
    ) -> (r: Self)
        ensures
            r.personality == personality,
            r.handle == handle,
            r.pid == pid,
            r.priority == priority,
            r.quantum.current == spec_default_quantum(priority),
            r.quantum.default == spec_default_quantum(priority),
            forall|k: crate::flags::ThreadAttributes| !r.attribute.has(k),
            r.sem.spec_value() == 0,
            r.sem.spec_waiting() == Seq::<ThreadHandle>::empty(),
            r.measure == 0,
            r.cpu_time == 0,
            r.load0 == 0,
            r.load == 0,
            r.executor == None::<Vec<usize>>,
            r.name@.len() == THREAD_NAME_LENGTH,
            r.name@[0] == stored_name_len(name.spec_bytes()) as u8,
            forall|j: int|
                0 <= j < stored_name_len(name.spec_bytes()) ==> r.name@[j + 1]
                    == name.spec_bytes()[j],
    {
        let mut buf: Vec<u8> = Vec::new();
        let mut i: usize = 0;
        while i < THREAD_NAME_LENGTH
            invariant
                i <= THREAD_NAME_LENGTH,
                buf@.len() == i,
                forall|k: int| 0 <= k < i ==> buf@[k] == 0u8,
            decreases THREAD_NAME_LENGTH - i,
        {
            buf.push(0);
            i = i + 1;
        }
        set_name_array(&mut buf, name.as_bytes());
        RawThread {
            pid,
            handle,
            sem: Semaphore::new(0),
            attribute: AtomicBitflags::empty(),
            priority,
            quantum: Quantum::from(priority),
            measure: 0,
            cpu_time: 0,
            load0: 0,
            load: 0,
            executor: None,
            personality,
            name: buf,
        }
    }

    /// The stored name bytes, or nothing when the name is empty.
    pub fn name_bytes(&self) -> (r: Option<Vec<u8>>)
        requires
            self.name@.len() == THREAD_NAME_LENGTH,
            self.name@[0] < THREAD_NAME_LENGTH as u8,
        ensures
            self.name@[0] == 0 ==> r == None::<Vec<u8>>,
            self.name@[0] != 0 ==> r is Some && r->Some_0@ == self.name@.subrange(
                1,
                self.name@[0] + 1,
            ),
    {
        let len = self.name[0] as usize;
        if len == 0 {
            return None;
        }
        let mut out: Vec<u8> = Vec::new();
        let mut i: usize = 1;
        while i < len + 1
            invariant
                1 <= i <= len + 1,
                len == self.name@[0],
                0 < len < THREAD_NAME_LENGTH,
                self.name@.len() == THREAD_NAME_LENGTH,
                out@.len() == i - 1,
                forall|k: int| 0 <= k < i - 1 ==> out@[k] == self.name@[k + 1],
            decreases len + 1 - i,
        {
            out.push(self.name[i]);
            i = i + 1;
        }
        proof {
            assert(out@ =~= self.name@.subrange(1, self.name@[0] + 1));
        }
        Some(out)
    }
}

/// Owner of every live thread record, keyed by handle. Handle words index
/// the table directly; a handle stays valid until the retire path drops the
/// record, and its slot is never reused.
pub struct ThreadPool {
    pub data: Vec<Option<RawThread>>,
}

impl ThreadPool {
    /// Slot zero stands for "no thread" and every record sits in the slot its
    /// handle names.
    pub open spec fn wf(self) -> bool {
        &&& self.data@.len() >= 1
        &&& self.data@[0] == None::<RawThread>
        &&& forall|h: int|
            0 <= h < self.data@.len() && self.data@[h] is Some
                ==> (#[trigger] self.data@[h])->Some_0.handle == ThreadHandle(h as usize)
    }

    /// Whether `h` names a live thread.
    pub open spec fn spec_contains(self, h: usize) -> bool {
        h < self.data@.len() && self.data@[h as int] is Some
    }

    /// The record of live thread `h`.
    pub open spec fn spec_thread(self, h: usize) -> RawThread {
        self.data@[h as int]->Some_0
    }

    /// The handle the next created thread will get.
    pub open spec fn spec_next_handle(self) -> usize {
        self.data@.len() as usize
    }

    /// An empty pool; the first created thread gets handle one.
    pub fn new() -> (r: Self)
        ensures
            r.wf(),
            r.data@.len() == 1,
            r.spec_next_handle() == 1,
            forall|h: usize| !r.spec_contains(h),
    {
        let mut data: Vec<Option<RawThread>> = Vec::new();
        data.push(None);
        ThreadPool { data }
    }

    /// Number of slots ever used, one more than the largest handle given out.
    pub fn next_handle(&self) -> (r: usize)
        ensures
            r == self.spec_next_handle(),
            r == self.data@.len(),
    {
        self.data.len()
    }

    /// Whether `h` names a live thread.
    pub fn contains(&self, h: ThreadHandle) -> (r: bool)
        ensures
            r == self.spec_contains(h.0),
    {
        h.0 < self.data.len() && self.data[h.0].is_some()
    }

    /// Insert a fresh record; it must carry the next handle, which the
    /// record is then reachable under.
    pub fn add(&mut self, thread: RawThread)
        requires
            old(self).wf(),
            thread.handle.0 == old(self).spec_next_handle(),
            old(self).data@.len() < usize::MAX,
        ensures
            final(self).wf(),
            final(self).data@.len() == old(self).data@.len() + 1,
            final(self).spec_next_handle() == old(self).spec_next_handle() + 1,
            final(self).spec_contains(thread.handle.0),
            final(self).spec_thread(thread.handle.0) == thread,
            forall|h: usize|
                h != thread.handle.0 ==> #[trigger] final(self).spec_contains(h) == old(self).spec_contains(h),
            forall|h: usize|
                h != thread.handle.0 && old(self).spec_contains(h) ==> #[trigger] final(self).spec_thread(h) == old(self).spec_thread(h),
    {
        self.data.push(Some(thread));
    }

    /// Drop the record of thread `h`; its handle never returns.
    pub fn drop_thread(&mut self, h: ThreadHandle)
        requires
            old(self).wf(),
            old(self).spec_contains(h.0),
        ensures
            final(self).wf(),
            final(self).spec_next_handle() == old(self).spec_next_handle(),
            !final(self).spec_contains(h.0),
            forall|k: usize|
                k != h.0 ==> #[trigger] final(self).spec_contains(k) == old(self).spec_contains(k),
            forall|k: usize|
                k != h.0 && old(self).spec_contains(k) ==> #[trigger] final(self).spec_thread(k)
                    == old(self).spec_thread(k),
    {
        self.data.set(h.0, None);
    }

    /// Borrow the record of live thread `h`.
    pub fn get(&self, h: ThreadHandle) -> (r: Option<&RawThread>)
        requires
            self.wf(),
        ensures
            self.spec_contains(h.0) ==> r is Some && *r->Some_0 == self.spec_thread(h.0),
            !self.spec_contains(h.0) ==> r == None::<&RawThread>,
    {
        if h.0 < self.data.len() {
            match &self.data[h.0] {
                Some(t) => Some(t),
                None => None,
            }
        } else {
            None
        }
    }

    /// Borrow the record of live thread `h` for update. The caller must leave
    /// the handle field alone; every other slot is untouched.
    pub fn get_mut(&mut self, h: ThreadHandle) -> (r: &mut RawThread)
        requires
            old(self).wf(),
            old(self).spec_contains(h.0),
        ensures
            *r == old(self).spec_thread(h.0),
            final(self).data@ == old(self).data@.update(h.0 as int, Some(*final(r))),
            final(self).spec_next_handle() == old(self).spec_next_handle(),
            final(r).handle == old(self).spec_thread(h.0).handle ==> final(self).wf(),
            final(self).spec_contains(h.0),
            final(self).spec_thread(h.0) == *final(r),
            forall|k: usize|
                k != h.0 ==> #[trigger] final(self).spec_contains(k) == old(self).spec_contains(k),
            forall|k: usize|
                k != h.0 && old(self).spec_contains(k) ==> #[trigger] final(self).spec_thread(k)
                    == old(self).spec_thread(k),
    {
        let slot = &mut self.data[h.0];
        match slot {
            Some(t) => t,
            None => vstd::pervasive::unreached(),
        }
    }
}

/// A dropped thread is gone exactly once and for good: its handle lies below
/// the allocation counter, every later creation takes the counter's value,
/// and the counter only grows — so no later creation can bring the handle
/// back, and dropping it again has nothing to drop.
pub proof fn lemma_dropped_handle_never_returns(p1: ThreadPool, p2: ThreadPool, h: usize, t: RawThread)
    requires
        !p1.spec_contains(h),
        h < p1.spec_next_handle(),
        p1.data@.len() < usize::MAX,
        // how `add` grows the pool
        t.handle.0 == p1.spec_next_handle(),
        p2.spec_next_handle() == p1.spec_next_handle() + 1,
        p2.spec_contains(t.handle.0),
        forall|k: usize|
            k != t.handle.0 ==> #[trigger] p2.spec_contains(k) == p1.spec_contains(k),
    ensures
        !p2.spec_contains(h),
        h < p2.spec_next_handle(),
{
    assert(h != t.handle.0);
}

} // verus!
