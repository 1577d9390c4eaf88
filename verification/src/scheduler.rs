//! The system scheduler: dispatch policy, enqueue and retire discipline,
//! preemption, timers, load measurement and thread lifecycle.
//!
//! One `Scheduler` value owns the four priority run-queues, the per-CPU local
//! schedulers, the thread pool and the timer plumbing. The machine layer
//! drives it: interrupts call `reschedule` on each tick, the idle loop and
//! the blocking paths call `switch_context`, the timer thread drains the
//! ingress queue with `process_timer_events`. Every reading of the clock is
//! passed in, and the hardware context switch happens between the bookkeeping
//! steps verified here.
//!
//! The well-formedness invariant `wf` carries the scheduler's central facts:
//! every handle on a run-queue names a live thread with its `QUEUED` flag
//! set and a useful priority, sitting on the queue of its own band, on no
//! other queue, and on no CPU; and each CPU's current, idle and retired
//! threads are live and belong to that CPU alone.

use crate::flags::ThreadAttributes;
use crate::queue::EventQueue;
use crate::queue::ThreadQueue;
use crate::semaphore::Semaphore;
use crate::system::ProcessorCoreType;
use crate::system::ProcessorIndex;
use crate::system::System;
use crate::threads::Priority;
use crate::threads::ProcessId;
use crate::threads::RawThread;
use crate::threads::ThreadHandle;
use crate::threads::ThreadPool;
use crate::timer::TimeSpec;
use crate::timer::Timer;
use crate::timer::TimerEvent;
use vstd::prelude::*;
use vstd::string::StringSliceAdditionalSpecFns;

verus! {

/// Total load below which the scheduler saves power (thousandths of a CPU).
pub const THRESHOLD_SAVING: usize = 666;

/// Per-performance-CPU load above which every core pulls work.
pub const THRESHOLD_FULL_THROTTLE_MODE: usize = 750;

/// Coarse operating mode, driven by measured load.
#[derive(Clone, Copy, Debug, PartialEq, Eq, Structural)]
pub enum SchedulerState {
    /// Not started yet.
    Disabled,
    /// Load is low: only CPU 0 dispatches work.
    Saving,
    /// Normal: performance cores dispatch work.
    Running,
    /// Saturated: every logical core dispatches work.
    FullThrottle,
}

/// Per-CPU scheduling state: the idle thread owned by this CPU, the thread
/// now running, and, between a context switch and its post-switch
/// bookkeeping, the thread just switched away from.
#[derive(Clone, Copy)]
pub struct LocalScheduler {
    pub index: ProcessorIndex,
    pub idle: ThreadHandle,
    pub current: ThreadHandle,
    pub retired: Option<ThreadHandle>,
}

impl LocalScheduler {
    /// The thread this CPU is running.
    pub fn current_thread(&self) -> (r: ThreadHandle)
        ensures
            r == self.current,
    {
        self.current
    }
}

/// How a thread is spawned: its priority band, and whether it starts a new
/// process group. The entry point, its argument and the stack belong to the
/// machine layer, which keys them by the returned handle.
#[derive(Clone, Copy)]
pub struct SpawnOption {
    pub priority: Priority,
    pub raise_pid: bool,
    /// Tag of an opaque personality context to attach, if any; the machine
    /// layer owns the context and its exit hook under this tag.
    pub personality: Option<usize>,
}

impl SpawnOption {
    /// Spawn at `Normal` priority in the caller's process group.
    pub fn new() -> (r: Self)
        ensures
            r.priority == Priority::Normal,
            !r.raise_pid,
            r.personality is None,
    {
        SpawnOption { priority: Priority::Normal, raise_pid: false, personality: None }
    }

    /// Spawn at the given priority in the caller's process group.
    pub fn with_priority(priority: Priority) -> (r: Self)
        ensures
            r.priority == priority,
            !r.raise_pid,
            r.personality is None,
    {
        SpawnOption { priority, raise_pid: false, personality: None }
    }

    /// Attach a personality context tag to the thread being spawned.
    pub fn personality(self, tag: usize) -> (r: Self)
        ensures
            r == (Self { personality: Some(tag), ..self }),
    {
        Self { personality: Some(tag), ..self }
    }

    /// Spawn a kernel thread in the caller's process group.
    pub fn spawn_f(self, sched: &mut Scheduler, index: ProcessorIndex, name: &str) -> (r: Option<
        ThreadHandle,
    >)
        requires
            old(sched).wf(),
            index.0 < old(sched).locals@.len(),
        ensures
            final(sched).wf(),
            Scheduler::spec_spawn_outcome(*old(sched), *final(sched), index, name, self, r),
    {
        sched.spawn_f(index, name, self)
    }

    /// Spawn a thread that starts a new process group.
    pub fn spawn(self, sched: &mut Scheduler, index: ProcessorIndex, name: &str) -> (r: Option<
        ThreadHandle,
    >)
        requires
            old(sched).wf(),
            index.0 < old(sched).locals@.len(),
        ensures
            final(sched).wf(),
            Scheduler::spec_spawn_outcome(
                *old(sched),
                *final(sched),
                index,
                name,
                (SpawnOption {
                    priority: self.priority,
                    raise_pid: true,
                    personality: self.personality,
                }),
                r,
            ),
    {
        let opts = SpawnOption {
            priority: self.priority,
            raise_pid: true,
            personality: self.personality,
        };
        sched.spawn_f(index, name, opts)
    }
}

/// The system scheduler.
pub struct Scheduler {
    pub queue_realtime: ThreadQueue,
    pub queue_higher: ThreadQueue,
    pub queue_normal: ThreadQueue,
    pub queue_lower: ThreadQueue,
    pub locals: Vec<LocalScheduler>,
    pub pool: ThreadPool,
    pub usage: usize,
    pub usage_total: usize,
    pub is_frozen: bool,
    pub enabled: bool,
    pub state: SchedulerState,
    pub next_timer: Timer,
    pub sem_timer: Semaphore,
    pub timer_queue: EventQueue,
    pub timer_events: Vec<TimerEvent>,
    pub system: System,
    pub next_pid: usize,
}

impl Scheduler {
    /// Whether CPU `i` holds `h` as its current, idle or retired thread.
    pub open spec fn local_owns(self, i: int, h: usize) -> bool {
        ||| self.locals@[i].current.0 == h
        ||| self.locals@[i].idle.0 == h
        ||| (self.locals@[i].retired matches Some(r) && r.0 == h)
    }

    /// Whether some CPU holds `h`.
    pub open spec fn is_local(self, h: usize) -> bool {
        exists|i: int| 0 <= i < self.locals@.len() && self.local_owns(i, h)
    }

    /// The run-queue of a priority band, front first. Idle threads have no
    /// queue.
    pub open spec fn queue_contents(self, pri: Priority) -> Seq<usize> {
        match pri {
            Priority::Realtime => self.queue_realtime.contents(),
            Priority::High => self.queue_higher.contents(),
            Priority::Normal => self.queue_normal.contents(),
            Priority::Low => self.queue_lower.contents(),
            Priority::Idle => Seq::empty(),
        }
    }

    /// Whether `h` sits on any run-queue.
    pub open spec fn in_some_queue(self, h: usize) -> bool {
        ||| self.queue_realtime.contents().contains(h)
        ||| self.queue_higher.contents().contains(h)
        ||| self.queue_normal.contents().contains(h)
        ||| self.queue_lower.contents().contains(h)
    }

    /// What holds of every handle on the queue of band `pri`: it names a live
    /// thread of that band, marked `QUEUED`, held by no CPU.
    pub open spec fn queued_ok(self, h: usize, pri: Priority) -> bool {
        &&& self.pool.spec_contains(h)
        &&& self.pool.spec_thread(h).attribute.has(ThreadAttributes::Queued)
        &&& self.pool.spec_thread(h).priority == pri
        &&& !self.is_local(h)
    }

    /// The queue of band `pri` is well formed: every member satisfies
    /// `queued_ok` and no handle appears twice.
    pub open spec fn wf_queue(self, pri: Priority) -> bool {
        let q = self.queue_contents(pri);
        &&& forall|k: int| 0 <= k < q.len() ==> self.queued_ok(#[trigger] q[k], pri)
        &&& forall|k1: int, k2: int| 0 <= k1 < k2 < q.len() ==> q[k1] != q[k2]
    }

    /// What holds of CPU `i`'s slot: its index matches its position, its idle
    /// thread is a live `Idle` thread, its current thread is live, and any
    /// non-idle current or retired thread is a queued-marked useful thread
    /// distinct from current.
    pub open spec fn local_ok(self, i: int) -> bool {
        let l = self.locals@[i];
        &&& l.index.0 == i
        &&& self.pool.spec_contains(l.idle.0)
        &&& self.pool.spec_thread(l.idle.0).priority == Priority::Idle
        &&& self.pool.spec_contains(l.current.0)
        &&& (l.current != l.idle ==> self.pool.spec_thread(l.current.0).attribute.has(
            ThreadAttributes::Queued,
        ) && self.pool.spec_thread(l.current.0).priority != Priority::Idle)
        &&& (l.retired matches Some(r) ==> {
            &&& self.pool.spec_contains(r.0)
            &&& r != l.current
            &&& (r != l.idle ==> self.pool.spec_thread(r.0).attribute.has(
                ThreadAttributes::Queued,
            ) && self.pool.spec_thread(r.0).priority != Priority::Idle)
        })
    }

    /// The per-CPU slots are well formed and no thread is held by two CPUs.
    pub open spec fn wf_locals(self) -> bool {
        &&& self.locals@.len() == self.system.spec_num_of_active_cpus()
        &&& forall|i: int| 0 <= i < self.locals@.len() ==> self.local_ok(i)
        &&& forall|i: int, j: int, h: usize|
            0 <= i < self.locals@.len() && 0 <= j < self.locals@.len() && i != j
                && #[trigger] self.local_owns(i, h) ==> !(#[trigger] self.local_owns(j, h))
    }

    /// The scheduler's well-formedness invariant; every operation preserves
    /// it.
    pub open spec fn wf(self) -> bool {
        &&& self.pool.wf()
        &&& self.system.wf()
        &&& self.wf_locals()
        &&& self.wf_queue(Priority::Realtime)
        &&& self.wf_queue(Priority::High)
        &&& self.wf_queue(Priority::Normal)
        &&& self.wf_queue(Priority::Low)
        &&& forall|k: int|
            0 <= k < self.timer_queue.contents().len() ==> TimerEvent::spec_decode(
                #[trigger] self.timer_queue.contents()[k],
            ) is Some
        &&& crate::timer::sorted_by_deadline(self.timer_events@)
    }

    /// Build a scheduler for the given topology: empty run-queues, one idle
    /// thread per CPU (handles one through the CPU count), dispatch disabled
    /// until `enable` is called.
    pub fn new(system: System) -> (r: Self)
        requires
            system.wf(),
            system.spec_num_of_active_cpus() < 0x1000_0000,
        ensures
            r.wf(),
            !r.enabled,
            !r.is_frozen,
            r.state == SchedulerState::Running,
            r.locals@.len() == system.spec_num_of_active_cpus(),
            r.queue_realtime.contents() == Seq::<usize>::empty(),
            r.queue_higher.contents() == Seq::<usize>::empty(),
            r.queue_normal.contents() == Seq::<usize>::empty(),
            r.queue_lower.contents() == Seq::<usize>::empty(),
            r.timer_queue.contents() == Seq::<(usize, usize, usize, usize)>::empty(),
            r.timer_events@ == Seq::<TimerEvent>::empty(),
            forall|i: int|
                0 <= i < r.locals@.len() ==> (#[trigger] r.locals@[i]).current
                    == r.locals@[i].idle,
            forall|i: int|
                0 <= i < r.locals@.len() ==> (#[trigger] r.locals@[i]).idle == ThreadHandle(
                    (i + 1) as usize,
                ) && r.locals@[i].retired is None,
            r.pool.spec_next_handle() == system.spec_num_of_active_cpus() + 1,
            r.queue_realtime.capacity() == 64,
            r.queue_higher.capacity() == 64,
            r.queue_normal.capacity() == 256,
            r.queue_lower.capacity() == 64,
            r.timer_queue.capacity() == 100,
            r.sem_timer.spec_value() == 0,
            r.sem_timer.spec_waiting() == Seq::<ThreadHandle>::empty(),
            r.next_timer.deadline.0 == 0,
            r.next_pid == 1,
            r.usage == 0,
            r.usage_total == 0,
            r.system == system,
    {
        let num_cpus = system.num_of_active_cpus();
        let mut pool = ThreadPool::new();
        let mut locals: Vec<LocalScheduler> = Vec::new();
        let mut i: usize = 0;
        while i < num_cpus
            invariant
                i <= num_cpus,
                num_cpus < 0x1000_0000,
                pool.wf(),
                pool.data@.len() == i + 1,
                pool.spec_next_handle() == i + 1,
                locals@.len() == i,
                forall|k: int|
                    0 <= k < i ==> {
                        let l = #[trigger] locals@[k];
                        &&& l.index.0 == k
                        &&& l.idle.0 == k + 1
                        &&& l.current == l.idle
                        &&& l.retired is None
                    },
                forall|h: usize|
                    pool.spec_contains(h) <==> 1 <= h <= i,
                forall|h: usize|
                    #[trigger] pool.spec_contains(h) ==> pool.spec_thread(h).priority
                        == Priority::Idle && pool.spec_thread(h).handle.0 == h,
            decreases num_cpus - i,
        {
            let handle = ThreadHandle(pool.next_handle());
            let t = RawThread::new(handle, ProcessId(0), Priority::Idle, "(idle)", None);
            pool.add(t);
            locals.push(
                LocalScheduler {
                    index: ProcessorIndex(i),
                    idle: handle,
                    current: handle,
                    retired: None,
                },
            );
            i = i + 1;
        }
        let r = Scheduler {
            queue_realtime: ThreadQueue::with_capacity(64),
            queue_higher: ThreadQueue::with_capacity(64),
            queue_normal: ThreadQueue::with_capacity(256),
            queue_lower: ThreadQueue::with_capacity(64),
            locals,
            pool,
            usage: 0,
            usage_total: 0,
            is_frozen: false,
            enabled: false,
            state: SchedulerState::Running,
            next_timer: Timer::just(),
            sem_timer: Semaphore::new(0),
            timer_queue: EventQueue::with_capacity(100),
            timer_events: Vec::new(),
            system,
            next_pid: 1,
        };
        proof {
            assert forall|i2: int, j2: int, h: usize|
                0 <= i2 < r.locals@.len() && 0 <= j2 < r.locals@.len() && i2 != j2
                    && #[trigger] r.local_owns(i2, h) implies !(#[trigger] r.local_owns(
                j2,
                h,
            )) by {
                assert(r.locals@[i2].idle.0 == i2 + 1);
                assert(r.locals@[j2].idle.0 == j2 + 1);
            }
            assert forall|i2: int| 0 <= i2 < r.locals@.len() implies r.local_ok(i2) by {
                assert(r.locals@[i2].idle.0 == i2 + 1);
                assert(r.pool.spec_contains((i2 + 1) as usize));
            }
        }
        r
    }

    /// Bring the scheduler up: create the timer thread (realtime, it pumps
    /// the timer queue via `process_timer_events`) and the first system
    /// thread (a normal thread opening a fresh process group), then allow
    /// dispatch. The machine layer then parks the boot processor in its idle
    /// loop; the handles come back so it can attach entry points and stacks
    /// to them. At boot — handle, process-tag and queue space available —
    /// both threads are owed: they join the pool under the next two handles
    /// and land on their bands' queues.
    pub fn start(&mut self, index: ProcessorIndex) -> (r: (Option<ThreadHandle>, Option<
        ThreadHandle,
    >))
        requires
            old(self).wf(),
            index.0 < old(self).locals@.len(),
        ensures
            final(self).wf(),
            final(self).enabled,
            final(self).locals@.len() == old(self).locals@.len(),
            ({
                let can_boot = {
                    &&& old(self).pool.spec_next_handle() + 1 < usize::MAX
                    &&& old(self).next_pid < usize::MAX
                    &&& old(self).queue_contents(Priority::Realtime).len() < old(self).queue_capacity(Priority::Realtime)
                    &&& old(self).queue_contents(Priority::Normal).len() < old(self).queue_capacity(Priority::Normal)
                };
                let h1 = old(self).pool.spec_next_handle();
                let h2 = old(self).pool.spec_next_handle() + 1;
                can_boot ==> {
                    &&& r.0 == Some(ThreadHandle(h1))
                    &&& r.1 == Some(ThreadHandle(h2 as usize))
                    &&& final(self).pool.spec_next_handle() == old(self).pool.spec_next_handle()
                        + 2
                    &&& final(self).pool.spec_contains(h1)
                    &&& final(self).pool.spec_contains(h2 as usize)
                    &&& final(self).pool.spec_thread(h1).priority == Priority::Realtime
                    &&& final(self).pool.spec_thread(h2 as usize).priority == Priority::Normal
                    &&& final(self).pool.spec_thread(h2 as usize).pid == ProcessId(
                        old(self).next_pid,
                    )
                    &&& final(self).next_pid == old(self).next_pid + 1
                    &&& final(self).queue_contents(Priority::Realtime) == old(self).queue_contents(Priority::Realtime).push(h1)
                    &&& final(self).queue_contents(Priority::Normal) == old(self).queue_contents(
                        Priority::Normal,
                    ).push(h2 as usize)
                    &&& final(self).queue_contents(Priority::High) == old(self).queue_contents(
                        Priority::High,
                    )
                    &&& final(self).queue_contents(Priority::Low) == old(self).queue_contents(
                        Priority::Low,
                    )
                    &&& forall|k: usize|
                        k != h1 && k != h2 ==> #[trigger] final(self).pool.spec_contains(k) == old(self).pool.spec_contains(k)
                    &&& final(self).locals@ == old(self).locals@
                }
            }),
    {
        let ghost s0 = *old(self);
        let scheduler_thread = SpawnOption::with_priority(Priority::Realtime).spawn_f(
            self,
            index,
            "Scheduler",
        );
        let ghost s1 = *self;
        let system_thread = SpawnOption::new().spawn(self, index, "System");
        let ghost s2 = *self;
        let ghost before_enable = *self;
        self.enable();
        proof {
            Self::lemma_wf_views_preserved(before_enable, *self);
            let can_boot = {
                &&& s0.pool.spec_next_handle() + 1 < usize::MAX
                &&& s0.next_pid < usize::MAX
                &&& s0.queue_contents(Priority::Realtime).len() < s0.queue_capacity(
                    Priority::Realtime,
                )
                &&& s0.queue_contents(Priority::Normal).len() < s0.queue_capacity(
                    Priority::Normal,
                )
            };
            if can_boot {
                assert(Self::spec_can_spawn(
                    s0,
                    (SpawnOption {
                        priority: Priority::Realtime,
                        raise_pid: false,
                        personality: None,
                    }),
                ));
                assert(Self::spec_can_spawn(
                    s1,
                    (SpawnOption {
                        priority: Priority::Normal,
                        raise_pid: true,
                        personality: None,
                    }),
                )) by {
                    assert(s1.queue_contents(Priority::Normal) == s0.queue_contents(
                        Priority::Normal,
                    ));
                    assert(s1.queue_capacity(Priority::Normal) == s0.queue_capacity(
                        Priority::Normal,
                    ));
                }
                assert(s2.queue_contents(Priority::Realtime) == s1.queue_contents(
                    Priority::Realtime,
                ));
                assert(s1.queue_contents(Priority::Realtime) == s0.queue_contents(
                    Priority::Realtime,
                ).push(s0.pool.spec_next_handle()));
                assert(s2.queue_contents(Priority::High) == s1.queue_contents(Priority::High));
                assert(s1.queue_contents(Priority::High) == s0.queue_contents(Priority::High));
                assert(s2.queue_contents(Priority::Low) == s1.queue_contents(Priority::Low));
                assert(s1.queue_contents(Priority::Low) == s0.queue_contents(Priority::Low));
                assert(self.queue_contents(Priority::Realtime) == s2.queue_contents(
                    Priority::Realtime,
                ));
                assert(self.queue_contents(Priority::High) == s2.queue_contents(Priority::High));
                assert(self.queue_contents(Priority::Low) == s2.queue_contents(Priority::Low));
                assert(self.queue_contents(Priority::Normal) == s2.queue_contents(
                    Priority::Normal,
                ));
            }
        }
        (scheduler_thread, system_thread)
    }

    /// Allow dispatch; called once the boot threads are spawned.
    pub fn enable(&mut self)
        ensures
            *final(self) == (Scheduler { enabled: true, ..*old(self) }),
    {
        self.enabled = true;
    }

    /// Whether the scheduler has been started.
    pub fn is_enabled(&self) -> (r: bool)
        ensures
            r == self.enabled,
    {
        self.enabled
    }

    /// Stop all dispatch: after a freeze, `next` hands out nothing and every
    /// CPU falls to its idle loop. The panic path relies on this.
    pub fn freeze(&mut self, force: bool) -> (r: Result<(), ()>)
        ensures
            *final(self) == (Scheduler { is_frozen: true, ..*old(self) }),
            r is Ok,
    {
        let _ = force;
        self.is_frozen = true;
        Ok(())
    }

    /// Latest measured load of the busiest view: thousandths of one CPU,
    /// averaged over CPUs.
    pub fn usage_per_cpu(&self) -> (r: usize)
        ensures
            r == self.usage,
    {
        self.usage
    }

    /// Latest measured total load, in thousandths of a CPU, clamped to the
    /// CPU count.
    pub fn usage_total(&self) -> (r: usize)
        ensures
            r == self.usage_total,
    {
        self.usage_total
    }

    /// The coarse state; `Disabled` until the scheduler is started.
    pub fn current_state(&self) -> (r: SchedulerState)
        ensures
            self.enabled ==> r == self.state,
            !self.enabled ==> r == SchedulerState::Disabled,
    {
        if self.enabled {
            self.state
        } else {
            SchedulerState::Disabled
        }
    }

    /// The thread CPU `index` is running, if the scheduler is started.
    pub fn current_thread(&self, index: ProcessorIndex) -> (r: Option<ThreadHandle>)
        requires
            index.0 < self.locals@.len(),
        ensures
            self.enabled ==> r == Some(self.locals@[index.0 as int].current),
            !self.enabled ==> r == None::<ThreadHandle>,
    {
        if self.enabled {
            Some(self.locals[index.0].current)
        } else {
            None
        }
    }

    /// The process tag of the thread CPU `index` is running.
    pub fn current_pid(&self, index: ProcessorIndex) -> (r: Option<ProcessId>)
        requires
            self.wf(),
            index.0 < self.locals@.len(),
        ensures
            self.enabled ==> r == Some(
                self.pool.spec_thread(self.locals@[index.0 as int].current.0).pid,
            ),
            !self.enabled ==> r == None::<ProcessId>,
    {
        if self.enabled {
            let h = self.locals[index.0].current;
            proof {
                assert(self.local_ok(index.0 as int));
            }
            match self.pool.get(h) {
                Some(t) => Some(t.pid),
                None => vstd::pervasive::unreached(),
            }
        } else {
            None
        }
    }

    /// The two schedulers agree on every field outside the pool and the
    /// run-queues.
    pub open spec fn frame_eq(pre: Scheduler, post: Scheduler) -> bool {
        &&& post.locals@ == pre.locals@
        &&& post.usage == pre.usage
        &&& post.usage_total == pre.usage_total
        &&& post.is_frozen == pre.is_frozen
        &&& post.enabled == pre.enabled
        &&& post.state == pre.state
        &&& post.next_timer == pre.next_timer
        &&& post.sem_timer == pre.sem_timer
        &&& post.timer_events == pre.timer_events
        &&& post.timer_queue.contents() == pre.timer_queue.contents()
        &&& post.timer_queue.capacity() == pre.timer_queue.capacity()
        &&& post.system == pre.system
        &&& post.next_pid == pre.next_pid
    }

    /// The two schedulers agree on every run-queue's contents and capacity.
    pub open spec fn queues_eq(pre: Scheduler, post: Scheduler) -> bool {
        &&& forall|p: Priority| #[trigger] post.queue_contents(p) == pre.queue_contents(p)
        &&& forall|p: Priority| #[trigger] post.queue_capacity(p) == pre.queue_capacity(p)
    }

    /// The pools agree everywhere but at handle `h`, and the next handle to
    /// be given out is the same.
    pub open spec fn pool_eq_except(pre: Scheduler, post: Scheduler, h: usize) -> bool {
        &&& forall|k: usize|
            k != h ==> #[trigger] post.pool.spec_contains(k) == pre.pool.spec_contains(k)
        &&& forall|k: usize|
            k != h && pre.pool.spec_contains(k) ==> #[trigger] post.pool.spec_thread(k)
                == pre.pool.spec_thread(k)
        &&& post.pool.spec_next_handle() == pre.pool.spec_next_handle()
    }

    /// The two schedulers agree on everything the invariant and the contracts
    /// read: same fields, with the queues compared by contents and capacity.
    pub open spec fn views_unchanged(pre: Scheduler, post: Scheduler) -> bool {
        &&& Self::frame_eq(pre, post)
        &&& Self::queues_eq(pre, post)
        &&& post.pool == pre.pool
    }

    /// A live thread of a useful band whose `QUEUED` flag is clear sits on no
    /// queue and on no CPU: the flag discipline keeps such a thread fully
    /// detached.
    pub proof fn lemma_unqueued_useful_is_detached(self, h: usize)
        requires
            self.wf(),
            self.pool.spec_contains(h),
            self.pool.spec_thread(h).priority != Priority::Idle,
            !self.pool.spec_thread(h).attribute.has(ThreadAttributes::Queued),
        ensures
            !self.is_local(h),
            !self.in_some_queue(h),
    {
        assert forall|i: int|
            0 <= i < self.locals@.len() implies !self.local_owns(i, h) by {
            assert(self.local_ok(i));
            let l = self.locals@[i];
            if l.idle.0 == h {
                assert(self.pool.spec_thread(h).priority == Priority::Idle);
            }
        }
        if self.queue_realtime.contents().contains(h) {
            let k = choose|k: int|
                0 <= k < self.queue_realtime.contents().len() && self.queue_realtime.contents()[k]
                    == h;
            assert(self.queued_ok(self.queue_contents(Priority::Realtime)[k], Priority::Realtime));
        }
        if self.queue_higher.contents().contains(h) {
            let k = choose|k: int|
                0 <= k < self.queue_higher.contents().len() && self.queue_higher.contents()[k] == h;
            assert(self.queued_ok(self.queue_contents(Priority::High)[k], Priority::High));
        }
        if self.queue_normal.contents().contains(h) {
            let k = choose|k: int|
                0 <= k < self.queue_normal.contents().len() && self.queue_normal.contents()[k] == h;
            assert(self.queued_ok(self.queue_contents(Priority::Normal)[k], Priority::Normal));
        }
        if self.queue_lower.contents().contains(h) {
            let k = choose|k: int|
                0 <= k < self.queue_lower.contents().len() && self.queue_lower.contents()[k] == h;
            assert(self.queued_ok(self.queue_contents(Priority::Low)[k], Priority::Low));
        }
    }

    /// Changing one live thread's record, without touching its priority and
    /// without clearing its `QUEUED` flag, preserves the scheduler invariant,
    /// as long as the queues and the per-CPU slots stay as they were.
    pub proof fn lemma_wf_after_pool_update(pre: Scheduler, post: Scheduler, h: usize)
        requires
            pre.wf(),
            post.pool.wf(),
            post.system == pre.system,
            post.locals@ == pre.locals@,
            post.queue_realtime.contents() == pre.queue_realtime.contents(),
            post.queue_higher.contents() == pre.queue_higher.contents(),
            post.queue_normal.contents() == pre.queue_normal.contents(),
            post.queue_lower.contents() == pre.queue_lower.contents(),
            post.timer_queue.contents() == pre.timer_queue.contents(),
            post.timer_events@ == pre.timer_events@,
            pre.pool.spec_contains(h),
            post.pool.spec_contains(h),
            forall|k: usize|
                k != h ==> #[trigger] post.pool.spec_contains(k) == pre.pool.spec_contains(k),
            forall|k: usize|
                k != h && pre.pool.spec_contains(k) ==> #[trigger] post.pool.spec_thread(k)
                    == pre.pool.spec_thread(k),
            post.pool.spec_thread(h).priority == pre.pool.spec_thread(h).priority,
            pre.pool.spec_thread(h).attribute.has(ThreadAttributes::Queued) ==> post.pool.spec_thread(
                h,
            ).attribute.has(ThreadAttributes::Queued),
        ensures
            post.wf(),
    {
        assert forall|i: int| 0 <= i < post.locals@.len() implies post.local_ok(i) by {
            assert(pre.local_ok(i));
        }
        assert forall|i: int, j: int, hh: usize|
            0 <= i < post.locals@.len() && 0 <= j < post.locals@.len() && i != j
                && #[trigger] post.local_owns(i, hh) implies !(#[trigger] post.local_owns(
            j,
            hh,
        )) by {
            assert(post.local_owns(i, hh) == pre.local_owns(i, hh));
            assert(post.local_owns(j, hh) == pre.local_owns(j, hh));
        }
        Self::lemma_wf_queue_after_pool_update(pre, post, h, Priority::Realtime);
        Self::lemma_wf_queue_after_pool_update(pre, post, h, Priority::High);
        Self::lemma_wf_queue_after_pool_update(pre, post, h, Priority::Normal);
        Self::lemma_wf_queue_after_pool_update(pre, post, h, Priority::Low);
    }

    proof fn lemma_wf_queue_after_pool_update(pre: Scheduler, post: Scheduler, h: usize, pri: Priority)
        requires
            pre.wf(),
            post.locals@ == pre.locals@,
            post.queue_realtime.contents() == pre.queue_realtime.contents(),
            post.queue_higher.contents() == pre.queue_higher.contents(),
            post.queue_normal.contents() == pre.queue_normal.contents(),
            post.queue_lower.contents() == pre.queue_lower.contents(),
            pre.pool.spec_contains(h),
            post.pool.spec_contains(h),
            forall|k: usize|
                k != h ==> #[trigger] post.pool.spec_contains(k) == pre.pool.spec_contains(k),
            forall|k: usize|
                k != h && pre.pool.spec_contains(k) ==> #[trigger] post.pool.spec_thread(k)
                    == pre.pool.spec_thread(k),
            post.pool.spec_thread(h).priority == pre.pool.spec_thread(h).priority,
            pre.pool.spec_thread(h).attribute.has(ThreadAttributes::Queued) ==> post.pool.spec_thread(
                h,
            ).attribute.has(ThreadAttributes::Queued),
        ensures
            post.wf_queue(pri),
    {
        let q = post.queue_contents(pri);
        assert(q == pre.queue_contents(pri));
        assert forall|k: int| 0 <= k < q.len() implies post.queued_ok(#[trigger] q[k], pri) by {
            assert(pre.queued_ok(q[k], pri));
            assert forall|i: int|
                0 <= i < post.locals@.len() implies !post.local_owns(i, q[k]) by {
                assert(!pre.local_owns(i, q[k]));
            }
        }
    }

    /// Make `handle` ready: set its `QUEUED` flag and push it onto the queue
    /// of its band. An idle or zombie thread, or one already queued, is left
    /// alone. A full band queue rejects the thread and changes nothing.
    pub fn add(&mut self, handle: ThreadHandle) -> (r: Result<(), ()>)
        requires
            old(self).wf(),
            old(self).pool.spec_contains(handle.0),
        ensures
            final(self).wf(),
            Self::frame_eq(*old(self), *final(self)),
            final(self).pool.spec_next_handle() == old(self).pool.spec_next_handle(),
            forall|p: Priority|
                #[trigger] final(self).queue_capacity(p) == old(self).queue_capacity(p),
            ({
                let t = old(self).pool.spec_thread(handle.0);
                if t.priority == Priority::Idle || t.attribute.has(ThreadAttributes::Zombie)
                    || t.attribute.has(ThreadAttributes::Queued) {
                    r is Ok && *final(self) == *old(self)
                } else if old(self).queue_contents(t.priority).len() >= old(self).queue_capacity(
                    t.priority,
                ) {
                    r is Err && Self::views_unchanged(*old(self), *final(self))
                } else {
                    let tn = final(self).pool.spec_thread(handle.0);
                    &&& r is Ok
                    &&& final(self).queue_contents(t.priority) == old(self).queue_contents(
                        t.priority,
                    ).push(handle.0)
                    &&& forall|p: Priority|
                        p != t.priority ==> #[trigger] final(self).queue_contents(p) == old(self).queue_contents(p)
                    &&& tn.attribute.has(ThreadAttributes::Queued)
                    &&& !tn.attribute.has(ThreadAttributes::Awake)
                    &&& tn.attribute.has(ThreadAttributes::Asleep) == (if t.attribute.has(
                        ThreadAttributes::Awake,
                    ) {
                        false
                    } else {
                        t.attribute.has(ThreadAttributes::Asleep)
                    })
                    &&& tn.attribute.has(ThreadAttributes::Zombie) == t.attribute.has(
                        ThreadAttributes::Zombie,
                    )
                    &&& tn == (RawThread { attribute: tn.attribute, ..t })
                    &&& forall|k: usize|
                        k != handle.0 ==> #[trigger] final(self).pool.spec_contains(k) == old(self).pool.spec_contains(k)
                    &&& forall|k: usize|
                        k != handle.0 && old(self).pool.spec_contains(k) ==> #[trigger] final(self).pool.spec_thread(k) == old(self).pool.spec_thread(k)
                    &&& final(self).pool.spec_contains(handle.0)
                    &&& final(self).locals@ == old(self).locals@
                    &&& final(self).system == old(self).system
                    &&& final(self).timer_queue.contents() == old(self).timer_queue.contents()
                    &&& final(self).timer_events@ == old(self).timer_events@
                    &&& final(self).sem_timer == old(self).sem_timer
                    &&& final(self).state == old(self).state
                    &&& final(self).is_frozen == old(self).is_frozen
                    &&& final(self).enabled == old(self).enabled
                    &&& final(self).next_timer == old(self).next_timer
                }
            }),
    {
        let (priority, is_zombie, is_queued) = {
            let t = match self.pool.get(handle) {
                Some(t) => t,
                None => vstd::pervasive::unreached(),
            };
            (
                t.priority,
                t.attribute.contains(ThreadAttributes::Zombie),
                t.attribute.contains(ThreadAttributes::Queued),
            )
        };
        if matches!(priority, Priority::Idle) || is_zombie || is_queued {
            return Ok(());
        }
        proof {
            self.lemma_unqueued_useful_is_detached(handle.0);
        }
        let pushed = match priority {
            Priority::Realtime => self.queue_realtime.enqueue(handle.0),
            Priority::High => self.queue_higher.enqueue(handle.0),
            Priority::Normal => self.queue_normal.enqueue(handle.0),
            Priority::Low => self.queue_lower.enqueue(handle.0),
            Priority::Idle => vstd::pervasive::unreached(),
        };
        match pushed {
            Err(()) => {
                proof {
                    Self::lemma_wf_after_pool_update(*old(self), *self, handle.0);
                }
                Err(())
            },
            Ok(()) => {
                let t = self.pool.get_mut(handle);
                let _ = t.attribute.test_and_set(ThreadAttributes::Queued);
                if t.attribute.test_and_clear(ThreadAttributes::Awake) {
                    t.attribute.remove(ThreadAttributes::Asleep);
                }
                proof {
                    Self::lemma_wf_after_enqueue(*old(self), *self, handle.0, priority);
                }
                Ok(())
            }
        }
    }

    /// Pushing a detached thread of band `pri`, with its `QUEUED` flag set,
    /// onto the queue of its band preserves the scheduler invariant, provided
    /// nothing else moved.
    proof fn lemma_wf_after_enqueue(pre: Scheduler, post: Scheduler, h: usize, pri: Priority)
        requires
            pre.wf(),
            post.pool.wf(),
            post.system == pre.system,
            post.locals@ == pre.locals@,
            post.timer_queue.contents() == pre.timer_queue.contents(),
            post.timer_events@ == pre.timer_events@,
            pri != Priority::Idle,
            pre.pool.spec_contains(h),
            post.pool.spec_contains(h),
            forall|k: usize|
                k != h ==> #[trigger] post.pool.spec_contains(k) == pre.pool.spec_contains(k),
            forall|k: usize|
                k != h && pre.pool.spec_contains(k) ==> #[trigger] post.pool.spec_thread(k)
                    == pre.pool.spec_thread(k),
            post.pool.spec_thread(h).priority == pri,
            post.pool.spec_thread(h).attribute.has(ThreadAttributes::Queued),
            !pre.is_local(h),
            !pre.in_some_queue(h),
            post.queue_contents(pri) == pre.queue_contents(pri).push(h),
            forall|p: Priority|
                p != pri ==> #[trigger] post.queue_contents(p) == pre.queue_contents(p),
        ensures
            post.wf(),
    {
        let q = post.queue_contents(pri);
        let qo = pre.queue_contents(pri);
        assert forall|k: int| 0 <= k < q.len() implies post.queued_ok(
            #[trigger] q[k],
            pri,
        ) by {
            if k < qo.len() {
                assert(pre.queued_ok(qo[k], pri));
                assert(q[k] == qo[k]);
                assert(qo.contains(qo[k]));
                assert(q[k] != h);
                assert forall|i: int|
                    0 <= i < post.locals@.len() implies !post.local_owns(i, q[k]) by {
                    assert(!pre.local_owns(i, q[k]));
                }
            } else {
                assert(q[k] == h);
                assert forall|i: int|
                    0 <= i < post.locals@.len() implies !post.local_owns(i, h) by {
                    assert(!pre.local_owns(i, h));
                }
            }
        }
        assert forall|k1: int, k2: int| 0 <= k1 < k2 < q.len() implies q[k1] != q[k2] by {
            if k2 == q.len() - 1 {
                assert(q[k1] == qo[k1]);
                if q[k1] == h {
                    assert(qo.contains(h));
                }
            }
        }
        assert forall|p: Priority|
            p != pri && p != Priority::Idle implies post.wf_queue(p) by {
            Self::lemma_wf_other_queue(pre, post, h, pri, p);
        }
        assert(post.wf_queue(Priority::Idle));
        assert forall|i: int| 0 <= i < post.locals@.len() implies post.local_ok(i) by {
            assert(pre.local_ok(i));
            assert(!pre.local_owns(i, h));
        }
        assert forall|i: int, j: int, hh: usize|
            0 <= i < post.locals@.len() && 0 <= j < post.locals@.len() && i != j
                && #[trigger] post.local_owns(i, hh) implies !(#[trigger] post.local_owns(
            j,
            hh,
        )) by {
            assert(post.local_owns(i, hh) == pre.local_owns(i, hh));
            assert(post.local_owns(j, hh) == pre.local_owns(j, hh));
        }
    }

    proof fn lemma_wf_other_queue(pre: Scheduler, post: Scheduler, h: usize, pushed: Priority, p: Priority)
        requires
            pre.wf(),
            p != pushed,
            p != Priority::Idle,
            post.locals@ == pre.locals@,
            post.queue_contents(p) == pre.queue_contents(p),
            pre.pool.spec_contains(h),
            post.pool.spec_contains(h),
            !pre.queue_contents(p).contains(h),
            forall|k: usize|
                k != h ==> #[trigger] post.pool.spec_contains(k) == pre.pool.spec_contains(k),
            forall|k: usize|
                k != h && pre.pool.spec_contains(k) ==> #[trigger] post.pool.spec_thread(k)
                    == pre.pool.spec_thread(k),
        ensures
            post.wf_queue(p),
    {
        let q = post.queue_contents(p);
        assert forall|k: int| 0 <= k < q.len() implies post.queued_ok(#[trigger] q[k], p) by {
            assert(pre.queued_ok(q[k], p));
            assert(pre.queue_contents(p).contains(q[k]));
            assert(q[k] != h);
            assert forall|i: int|
                0 <= i < post.locals@.len() implies !post.local_owns(i, q[k]) by {
                assert(!pre.local_owns(i, q[k]));
            }
        }
    }

    /// The fixed capacity of the queue of a band.
    pub open spec fn queue_capacity(self, pri: Priority) -> nat {
        match pri {
            Priority::Realtime => self.queue_realtime.capacity(),
            Priority::High => self.queue_higher.capacity(),
            Priority::Normal => self.queue_normal.capacity(),
            Priority::Low => self.queue_lower.capacity(),
            Priority::Idle => 0,
        }
    }

    /// Wake a sleeping thread: set `AWAKE` so a racing retirement re-queues
    /// it, then make it ready. A stale handle is reported and changes
    /// nothing; so does a full band queue.
    pub fn wake(&mut self, handle: ThreadHandle) -> (r: Result<(), ()>)
        requires
            old(self).wf(),
        ensures
            final(self).wf(),
            !old(self).pool.spec_contains(handle.0) ==> r is Err && *final(self) == *old(self),
            old(self).pool.spec_contains(handle.0) ==> {
                let t = old(self).pool.spec_thread(handle.0);
                let tn = final(self).pool.spec_thread(handle.0);
                &&& final(self).pool.spec_contains(handle.0)
                &&& final(self).locals@ == old(self).locals@
                &&& Self::pool_eq_except(*old(self), *final(self), handle.0)
                &&& Self::frame_eq(*old(self), *final(self))
                &&& tn == (RawThread { attribute: tn.attribute, ..t })
                &&& tn.attribute.has(ThreadAttributes::Zombie) == t.attribute.has(
                    ThreadAttributes::Zombie,
                )
                &&& forall|p: Priority|
                    #[trigger] final(self).queue_capacity(p) == old(self).queue_capacity(p)
                &&& forall|p: Priority|
                    #[trigger] final(self).queue_contents(p).len() <= old(self).queue_contents(
                        p,
                    ).len() + 1
                &&& (t.priority == Priority::Idle || t.attribute.has(ThreadAttributes::Zombie)
                    || t.attribute.has(ThreadAttributes::Queued) ==> r is Ok && tn.attribute.has(
                    ThreadAttributes::Awake,
                ) && tn.attribute.has(ThreadAttributes::Queued) == t.attribute.has(
                    ThreadAttributes::Queued,
                ) && tn.attribute.has(ThreadAttributes::Asleep) == t.attribute.has(
                    ThreadAttributes::Asleep,
                ) && tn.attribute.has(ThreadAttributes::Zombie) == t.attribute.has(
                    ThreadAttributes::Zombie,
                ) && (forall|p: Priority|
                    #[trigger] final(self).queue_contents(p) == old(self).queue_contents(p)))
                &&& (!(t.priority == Priority::Idle || t.attribute.has(ThreadAttributes::Zombie)
                    || t.attribute.has(ThreadAttributes::Queued)) && old(self).queue_contents(
                    t.priority,
                ).len() < old(self).queue_capacity(t.priority) ==> {
                    &&& r is Ok
                    &&& tn.attribute.has(ThreadAttributes::Queued)
                    &&& !tn.attribute.has(ThreadAttributes::Awake)
                    &&& !tn.attribute.has(ThreadAttributes::Asleep)
                    &&& final(self).queue_contents(t.priority) == old(self).queue_contents(
                        t.priority,
                    ).push(handle.0)
                    &&& forall|p: Priority|
                        p != t.priority ==> #[trigger] final(self).queue_contents(p) == old(self).queue_contents(p)
                })
                &&& (!(t.priority == Priority::Idle || t.attribute.has(ThreadAttributes::Zombie)
                    || t.attribute.has(ThreadAttributes::Queued)) && old(self).queue_contents(
                    t.priority,
                ).len() >= old(self).queue_capacity(t.priority) ==> {
                    // A full band queue rejects the wake: the AWAKE mark
                    // stays, so a later retirement of the thread re-queues
                    // it, but nothing is enqueued now.
                    &&& r is Err
                    &&& tn.attribute.has(ThreadAttributes::Awake)
                    &&& !tn.attribute.has(ThreadAttributes::Queued)
                    &&& tn.attribute.has(ThreadAttributes::Asleep) == t.attribute.has(
                        ThreadAttributes::Asleep,
                    )
                    &&& forall|p: Priority|
                        #[trigger] final(self).queue_contents(p) == old(self).queue_contents(p)
                })
            },
    {
        if !self.pool.contains(handle) {
            return Err(());
        }
        let ghost pre = *self;
        {
            let t = self.pool.get_mut(handle);
            t.attribute.insert(ThreadAttributes::Awake);
        }
        proof {
            Self::lemma_wf_after_pool_update(pre, *self, handle.0);
        }
        self.add(handle)
    }

    /// Removing or arbitrarily rewriting the record of a thread that sits on
    /// no queue and on no CPU preserves the scheduler invariant, provided
    /// nothing else moved: no well-formedness clause reads a detached record.
    proof fn lemma_wf_after_detached_change(pre: Scheduler, post: Scheduler, h: usize)
        requires
            pre.wf(),
            post.pool.wf(),
            post.system == pre.system,
            post.locals@ == pre.locals@,
            post.timer_queue.contents() == pre.timer_queue.contents(),
            post.timer_events@ == pre.timer_events@,
            Self::queues_eq(pre, post),
            !pre.is_local(h),
            !pre.in_some_queue(h),
            forall|k: usize|
                k != h ==> #[trigger] post.pool.spec_contains(k) == pre.pool.spec_contains(k),
            forall|k: usize|
                k != h && pre.pool.spec_contains(k) ==> #[trigger] post.pool.spec_thread(k)
                    == pre.pool.spec_thread(k),
        ensures
            post.wf(),
    {
        assert forall|i: int| 0 <= i < post.locals@.len() implies post.local_ok(i) by {
            assert(pre.local_ok(i));
            assert(!pre.local_owns(i, h));
        }
        assert forall|i: int, j: int, hh: usize|
            0 <= i < post.locals@.len() && 0 <= j < post.locals@.len() && i != j
                && #[trigger] post.local_owns(i, hh) implies !(#[trigger] post.local_owns(
            j,
            hh,
        )) by {
            assert(post.local_owns(i, hh) == pre.local_owns(i, hh));
            assert(post.local_owns(j, hh) == pre.local_owns(j, hh));
        }
        assert forall|p: Priority|
            p != Priority::Idle implies post.wf_queue(p) by {
            assert(post.queue_contents(p) == pre.queue_contents(p));
            let q = post.queue_contents(p);
            assert forall|k: int| 0 <= k < q.len() implies post.queued_ok(#[trigger] q[k], p) by {
                assert(pre.queued_ok(q[k], p));
                assert(pre.queue_contents(p).contains(q[k]));
                assert(q[k] != h);
                assert forall|i: int|
                    0 <= i < post.locals@.len() implies !post.local_owns(i, q[k]) by {
                    assert(!pre.local_owns(i, q[k]));
                }
            }
        }
        assert(post.wf_queue(Priority::Idle));
    }

    /// Retire the thread just switched away from: a zombie is dropped from
    /// the pool, a sleeper that was woken in the meantime is re-queued with
    /// its sleep resolved, a committed sleeper goes off-queue, and anything
    /// else (a preempted or yielding thread) is re-queued as it was.
    ///
    /// The caller hands in a thread held by no CPU and sitting on no queue:
    /// the one it has just cleared from its `retired` slot. An idle thread is
    /// left entirely alone. The band queue must have room on the re-queue
    /// paths, as the kernel's retire cannot fail.
    pub fn retire(&mut self, handle: ThreadHandle)
        requires
            old(self).wf(),
            old(self).pool.spec_contains(handle.0),
            ({
                let t = old(self).pool.spec_thread(handle.0);
                t.priority != Priority::Idle ==> {
                    &&& !old(self).is_local(handle.0)
                    &&& !old(self).in_some_queue(handle.0)
                    &&& t.attribute.has(ThreadAttributes::Queued)
                    &&& (!t.attribute.has(ThreadAttributes::Zombie) && (t.attribute.has(
                        ThreadAttributes::Awake,
                    ) || !t.attribute.has(ThreadAttributes::Asleep))
                        ==> old(self).queue_contents(t.priority).len() < old(self).queue_capacity(
                        t.priority,
                    ))
                }
            }),
        ensures
            final(self).wf(),
            Self::frame_eq(*old(self), *final(self)),
            forall|p: Priority|
                #[trigger] final(self).queue_capacity(p) == old(self).queue_capacity(p),
            ({
                let t = old(self).pool.spec_thread(handle.0);
                if t.priority == Priority::Idle {
                    *final(self) == *old(self)
                } else if t.attribute.has(ThreadAttributes::Zombie) {
                    &&& !final(self).pool.spec_contains(handle.0)
                    &&& Self::pool_eq_except(*old(self), *final(self), handle.0)
                    &&& Self::queues_eq(*old(self), *final(self))
                } else if t.attribute.has(ThreadAttributes::Awake) {
                    let tn = final(self).pool.spec_thread(handle.0);
                    &&& final(self).pool.spec_contains(handle.0)
                    &&& Self::pool_eq_except(*old(self), *final(self), handle.0)
                    &&& tn.attribute.has(ThreadAttributes::Queued)
                    &&& !tn.attribute.has(ThreadAttributes::Awake)
                    &&& !tn.attribute.has(ThreadAttributes::Asleep)
                    &&& !tn.attribute.has(ThreadAttributes::Zombie)
                    &&& tn == (RawThread { attribute: tn.attribute, ..t })
                    &&& final(self).queue_contents(t.priority) == old(self).queue_contents(
                        t.priority,
                    ).push(handle.0)
                    &&& forall|p: Priority|
                        p != t.priority ==> #[trigger] final(self).queue_contents(p) == old(self).queue_contents(p)
                } else if t.attribute.has(ThreadAttributes::Asleep) {
                    let tn = final(self).pool.spec_thread(handle.0);
                    &&& final(self).pool.spec_contains(handle.0)
                    &&& Self::pool_eq_except(*old(self), *final(self), handle.0)
                    &&& !tn.attribute.has(ThreadAttributes::Queued)
                    &&& !tn.attribute.has(ThreadAttributes::Awake)
                    &&& tn.attribute.has(ThreadAttributes::Asleep)
                    &&& !tn.attribute.has(ThreadAttributes::Zombie)
                    &&& tn == (RawThread { attribute: tn.attribute, ..t })
                    &&& Self::queues_eq(*old(self), *final(self))
                } else {
                    let tn = final(self).pool.spec_thread(handle.0);
                    &&& final(self).pool.spec_contains(handle.0)
                    &&& Self::pool_eq_except(*old(self), *final(self), handle.0)
                    &&& tn.attribute.has(ThreadAttributes::Queued)
                    &&& !tn.attribute.has(ThreadAttributes::Awake)
                    &&& !tn.attribute.has(ThreadAttributes::Asleep)
                    &&& !tn.attribute.has(ThreadAttributes::Zombie)
                    &&& tn == (RawThread { attribute: tn.attribute, ..t })
                    &&& final(self).queue_contents(t.priority) == old(self).queue_contents(
                        t.priority,
                    ).push(handle.0)
                    &&& forall|p: Priority|
                        p != t.priority ==> #[trigger] final(self).queue_contents(p) == old(self).queue_contents(p)
                }
            }),
    {
        let (priority, is_zombie) = {
            let t = match self.pool.get(handle) {
                Some(t) => t,
                None => vstd::pervasive::unreached(),
            };
            (t.priority, t.attribute.contains(ThreadAttributes::Zombie))
        };
        if matches!(priority, Priority::Idle) {
            return ;
        }
        if is_zombie {
            self.pool.drop_thread(handle);
            proof {
                Self::lemma_wf_after_detached_change(*old(self), *self, handle.0);
            }
            return ;
        }
        let was_awake = {
            let t = self.pool.get_mut(handle);
            t.attribute.test_and_clear(ThreadAttributes::Awake)
        };
        if was_awake {
            {
                let t = self.pool.get_mut(handle);
                t.attribute.remove(ThreadAttributes::Asleep);
            }
            let pushed = match priority {
                Priority::Realtime => self.queue_realtime.enqueue(handle.0),
                Priority::High => self.queue_higher.enqueue(handle.0),
                Priority::Normal => self.queue_normal.enqueue(handle.0),
                Priority::Low => self.queue_lower.enqueue(handle.0),
                Priority::Idle => vstd::pervasive::unreached(),
            };
            proof {
                assert(pushed is Ok);
                Self::lemma_wf_after_enqueue(*old(self), *self, handle.0, priority);
            }
        } else {
            let is_asleep = {
                let t = match self.pool.get(handle) {
                    Some(t) => t,
                    None => vstd::pervasive::unreached(),
                };
                t.attribute.contains(ThreadAttributes::Asleep)
            };
            if is_asleep {
                {
                    let t = self.pool.get_mut(handle);
                    t.attribute.remove(ThreadAttributes::Queued);
                }
                proof {
                    Self::lemma_wf_after_detached_change(*old(self), *self, handle.0);
                }
            } else {
                let pushed = match priority {
                    Priority::Realtime => self.queue_realtime.enqueue(handle.0),
                    Priority::High => self.queue_higher.enqueue(handle.0),
                    Priority::Normal => self.queue_normal.enqueue(handle.0),
                    Priority::Low => self.queue_lower.enqueue(handle.0),
                    Priority::Idle => vstd::pervasive::unreached(),
                };
                proof {
                    assert(pushed is Ok);
                    Self::lemma_wf_after_enqueue(*old(self), *self, handle.0, priority);
                }
            }
        }
    }

    /// Popping the head of one band's queue preserves the invariant; the
    /// popped handle names a live, queued-marked thread of that band that now
    /// sits on no queue and on no CPU.
    proof fn lemma_wf_after_dequeue(pre: Scheduler, post: Scheduler, pri: Priority)
        requires
            pre.wf(),
            pri != Priority::Idle,
            pre.queue_contents(pri).len() > 0,
            post.pool == pre.pool,
            post.system == pre.system,
            post.locals@ == pre.locals@,
            post.timer_queue.contents() == pre.timer_queue.contents(),
            post.timer_events@ == pre.timer_events@,
            post.queue_contents(pri) == pre.queue_contents(pri).drop_first(),
            forall|p: Priority|
                p != pri ==> #[trigger] post.queue_contents(p) == pre.queue_contents(p),
        ensures
            post.wf(),
            ({
                let h = pre.queue_contents(pri)[0];
                &&& post.pool.spec_contains(h)
                &&& post.pool.spec_thread(h).attribute.has(ThreadAttributes::Queued)
                &&& post.pool.spec_thread(h).priority == pri
                &&& !post.is_local(h)
                &&& !post.in_some_queue(h)
            }),
    {
        let h = pre.queue_contents(pri)[0];
        let qo = pre.queue_contents(pri);
        let q = post.queue_contents(pri);
        assert(pre.queued_ok(qo[0], pri));
        assert forall|k: int| 0 <= k < q.len() implies post.queued_ok(#[trigger] q[k], pri) by {
            assert(q[k] == qo[k + 1]);
            assert(pre.queued_ok(qo[k + 1], pri));
            assert forall|i: int|
                0 <= i < post.locals@.len() implies !post.local_owns(i, q[k]) by {
                assert(!pre.local_owns(i, q[k]));
            }
        }
        assert forall|k1: int, k2: int| 0 <= k1 < k2 < q.len() implies q[k1] != q[k2] by {
            assert(q[k1] == qo[k1 + 1]);
            assert(q[k2] == qo[k2 + 1]);
        }
        assert forall|p: Priority|
            p != pri && p != Priority::Idle implies post.wf_queue(p) by {
            let qp = post.queue_contents(p);
            assert(qp == pre.queue_contents(p));
            assert forall|k: int| 0 <= k < qp.len() implies post.queued_ok(#[trigger] qp[k], p) by {
                assert(pre.queued_ok(qp[k], p));
                assert forall|i: int|
                    0 <= i < post.locals@.len() implies !post.local_owns(i, qp[k]) by {
                    assert(!pre.local_owns(i, qp[k]));
                }
            }
        }
        assert(post.wf_queue(Priority::Idle));
        assert forall|i: int| 0 <= i < post.locals@.len() implies post.local_ok(i) by {
            assert(pre.local_ok(i));
        }
        assert forall|i: int, j: int, hh: usize|
            0 <= i < post.locals@.len() && 0 <= j < post.locals@.len() && i != j
                && #[trigger] post.local_owns(i, hh) implies !(#[trigger] post.local_owns(
            j,
            hh,
        )) by {
            assert(post.local_owns(i, hh) == pre.local_owns(i, hh));
            assert(post.local_owns(j, hh) == pre.local_owns(j, hh));
        }
        assert forall|i: int|
            0 <= i < post.locals@.len() implies !post.local_owns(i, h) by {
            assert(!pre.local_owns(i, h));
        }
        if post.in_some_queue(h) {
            if post.queue_contents(pri).contains(h) {
                let k = choose|k: int| 0 <= k < q.len() && q[k] == h;
                assert(qo[k + 1] == qo[0]);
            }
            if post.queue_contents(Priority::Realtime).contains(h) && pri != Priority::Realtime {
                let k = choose|k: int|
                    0 <= k < post.queue_contents(Priority::Realtime).len()
                        && post.queue_contents(Priority::Realtime)[k] == h;
                assert(pre.queued_ok(pre.queue_contents(Priority::Realtime)[k], Priority::Realtime));
            }
            if post.queue_contents(Priority::High).contains(h) && pri != Priority::High {
                let k = choose|k: int|
                    0 <= k < post.queue_contents(Priority::High).len() && post.queue_contents(
                        Priority::High,
                    )[k] == h;
                assert(pre.queued_ok(pre.queue_contents(Priority::High)[k], Priority::High));
            }
            if post.queue_contents(Priority::Normal).contains(h) && pri != Priority::Normal {
                let k = choose|k: int|
                    0 <= k < post.queue_contents(Priority::Normal).len() && post.queue_contents(
                        Priority::Normal,
                    )[k] == h;
                assert(pre.queued_ok(pre.queue_contents(Priority::Normal)[k], Priority::Normal));
            }
            if post.queue_contents(Priority::Low).contains(h) && pri != Priority::Low {
                let k = choose|k: int|
                    0 <= k < post.queue_contents(Priority::Low).len() && post.queue_contents(
                        Priority::Low,
                    )[k] == h;
                assert(pre.queued_ok(pre.queue_contents(Priority::Low)[k], Priority::Low));
            }
            assert(false);
        }
    }

    /// The invariant carries over to a scheduler that agrees on the pool,
    /// the CPU slots and every queue's contents.
    proof fn lemma_wf_views_preserved(pre: Scheduler, post: Scheduler)
        requires
            pre.wf(),
            post.pool == pre.pool,
            post.system == pre.system,
            post.locals@ == pre.locals@,
            Self::queues_eq(pre, post),
            post.timer_queue.contents() == pre.timer_queue.contents(),
            post.timer_events@ == pre.timer_events@,
        ensures
            post.wf(),
    {
        assert forall|i: int| 0 <= i < post.locals@.len() implies post.local_ok(i) by {
            assert(pre.local_ok(i));
        }
        assert forall|i: int, j: int, hh: usize|
            0 <= i < post.locals@.len() && 0 <= j < post.locals@.len() && i != j
                && #[trigger] post.local_owns(i, hh) implies !(#[trigger] post.local_owns(
            j,
            hh,
        )) by {
            assert(post.local_owns(i, hh) == pre.local_owns(i, hh));
            assert(post.local_owns(j, hh) == pre.local_owns(j, hh));
        }
        assert forall|p: Priority|
            p != Priority::Idle implies post.wf_queue(p) by {
            assert(post.queue_contents(p) == pre.queue_contents(p));
            let q = post.queue_contents(p);
            assert forall|k: int| 0 <= k < q.len() implies post.queued_ok(#[trigger] q[k], p) by {
                assert(pre.queued_ok(q[k], p));
                assert forall|i: int|
                    0 <= i < post.locals@.len() implies !post.local_owns(i, q[k]) by {
                    assert(!pre.local_owns(i, q[k]));
                }
            }
        }
        assert(post.wf_queue(Priority::Idle));
    }

    /// Whether the dispatch gate turns CPU `index` away: a frozen scheduler
    /// hands out nothing; under `Saving` only CPU 0 pulls work; under
    /// `FullThrottle` every core pulls; otherwise only `Main` cores do.
    pub open spec fn dispatch_gated(self, index: ProcessorIndex) -> bool {
        ||| self.is_frozen
        ||| (self.state == SchedulerState::Saving && index.0 != 0)
        ||| (self.state != SchedulerState::Saving && self.state != SchedulerState::FullThrottle
            && self.system.spec_core_type(index.0 as int) != ProcessorCoreType::Main)
    }

    /// The next thread CPU `index` should run: the head of the highest
    /// non-empty run-queue, unless the dispatch gate turns the CPU away or
    /// every queue is empty; then nothing, and the caller runs its idle
    /// thread. A returned thread is popped from its queue and is afterwards
    /// held by no queue and no CPU.
    pub fn next(&mut self, index: ProcessorIndex) -> (r: Option<ThreadHandle>)
        requires
            old(self).wf(),
            index.0 < old(self).locals@.len(),
        ensures
            final(self).wf(),
            Self::frame_eq(*old(self), *final(self)),
            final(self).pool == old(self).pool,
            forall|p: Priority|
                #[trigger] final(self).queue_capacity(p) == old(self).queue_capacity(p),
            ({
                if old(self).dispatch_gated(index) {
                    r == None::<ThreadHandle> && Self::queues_eq(*old(self), *final(self))
                } else if old(self).queue_contents(Priority::Realtime).len() > 0 {
                    Self::popped_head(*old(self), *final(self), Priority::Realtime, r)
                } else if old(self).queue_contents(Priority::High).len() > 0 {
                    Self::popped_head(*old(self), *final(self), Priority::High, r)
                } else if old(self).queue_contents(Priority::Normal).len() > 0 {
                    Self::popped_head(*old(self), *final(self), Priority::Normal, r)
                } else if old(self).queue_contents(Priority::Low).len() > 0 {
                    Self::popped_head(*old(self), *final(self), Priority::Low, r)
                } else {
                    r == None::<ThreadHandle> && Self::queues_eq(*old(self), *final(self))
                }
            }),
            r matches Some(h) ==> {
                &&& final(self).pool.spec_contains(h.0)
                &&& final(self).pool.spec_thread(h.0).attribute.has(ThreadAttributes::Queued)
                &&& final(self).pool.spec_thread(h.0).priority != Priority::Idle
                &&& !final(self).is_local(h.0)
                &&& !final(self).in_some_queue(h.0)
            },
    {
        if self.is_frozen {
            return None;
        }
        let gate_open = match self.state {
            SchedulerState::FullThrottle => true,
            SchedulerState::Saving => index.0 == 0,
            _ => matches!(self.system.core_type(index.0), ProcessorCoreType::Main),
        };
        if !gate_open {
            return None;
        }
        if let Some(h) = self.queue_realtime.dequeue() {
            proof {
                Self::lemma_wf_after_dequeue(*old(self), *self, Priority::Realtime);
            }
            return Some(ThreadHandle(h));
        }
        if let Some(h) = self.queue_higher.dequeue() {
            proof {
                Self::lemma_wf_after_dequeue(*old(self), *self, Priority::High);
            }
            return Some(ThreadHandle(h));
        }
        if let Some(h) = self.queue_normal.dequeue() {
            proof {
                Self::lemma_wf_after_dequeue(*old(self), *self, Priority::Normal);
            }
            return Some(ThreadHandle(h));
        }
        if let Some(h) = self.queue_lower.dequeue() {
            proof {
                Self::lemma_wf_after_dequeue(*old(self), *self, Priority::Low);
            }
            return Some(ThreadHandle(h));
        }
        proof {
            Self::lemma_wf_views_preserved(*old(self), *self);
        }
        None
    }

    /// The head of band `pri` was handed out: the result is that head, the
    /// band's queue lost it, and every other queue is as it was.
    pub open spec fn popped_head(
        pre: Scheduler,
        post: Scheduler,
        pri: Priority,
        r: Option<ThreadHandle>,
    ) -> bool {
        &&& r == Some(ThreadHandle(pre.queue_contents(pri)[0]))
        &&& post.queue_contents(pri) == pre.queue_contents(pri).drop_first()
        &&& forall|p: Priority|
            p != pri ==> #[trigger] post.queue_contents(p) == pre.queue_contents(p)
    }

    /// The band whose head the dispatch policy picks for CPU `index`: the
    /// highest non-empty one, if this CPU may pull work at all.
    pub open spec fn spec_picked_band(pre: Scheduler, index: ProcessorIndex) -> Option<Priority> {
        if pre.dispatch_gated(index) {
            None
        } else if pre.queue_contents(Priority::Realtime).len() > 0 {
            Some(Priority::Realtime)
        } else if pre.queue_contents(Priority::High).len() > 0 {
            Some(Priority::High)
        } else if pre.queue_contents(Priority::Normal).len() > 0 {
            Some(Priority::Normal)
        } else if pre.queue_contents(Priority::Low).len() > 0 {
            Some(Priority::Low)
        } else {
            None
        }
    }

    /// The thread `next` would hand CPU `index`.
    pub open spec fn spec_picked_next(pre: Scheduler, index: ProcessorIndex) -> Option<usize> {
        match Self::spec_picked_band(pre, index) {
            Some(p) => Some(pre.queue_contents(p)[0]),
            None => None,
        }
    }

    /// Queue contents of band `p` after the dispatch pop, before the retire
    /// push.
    pub open spec fn mid_queue(pre: Scheduler, index: ProcessorIndex, p: Priority) -> Seq<usize> {
        if Self::spec_picked_band(pre, index) == Some(p) {
            pre.queue_contents(p).drop_first()
        } else {
            pre.queue_contents(p)
        }
    }

    /// Running-time accounting applied to a thread when its CPU switches
    /// away from it, or resets its measurement on dispatch: the time since
    /// the last measurement is added to `cpu_time` and to the load
    /// accumulator (both saturating), and the measurement point moves to
    /// `now`. Every other field keeps its value.
    pub open spec fn stats_updated(t: RawThread, tn: RawThread, now: TimeSpec) -> bool {
        let diff: int = if now.0 >= t.measure {
            now.0 - t.measure
        } else {
            0
        };
        let d32: int = if diff <= u32::MAX {
            diff
        } else {
            u32::MAX as int
        };
        &&& tn.cpu_time == (if t.cpu_time + diff <= usize::MAX {
            t.cpu_time + diff
        } else {
            usize::MAX as int
        })
        &&& tn.load0 == (if t.load0 + d32 <= u32::MAX {
            t.load0 + d32
        } else {
            u32::MAX as int
        })
        &&& tn.measure == now.0
        &&& tn == (RawThread {
            cpu_time: tn.cpu_time,
            load0: tn.load0,
            measure: tn.measure,
            ..t
        })
    }

    /// Everything `switch_context` does to CPU `index` at time `now`: the
    /// outgoing thread's statistics are settled; the dispatch policy picks
    /// the head of the highest non-empty band, or the CPU's idle thread, as
    /// the new current thread; when that differs from the outgoing thread,
    /// the newcomer's sleep flags are cleared and its measurement restarts,
    /// and the outgoing thread is retired: dropped if a zombie, parked
    /// off-queue if committed to sleep, re-queued otherwise.
    pub open spec fn switch_outcome(
        pre: Scheduler,
        post: Scheduler,
        index: ProcessorIndex,
        now: TimeSpec,
    ) -> bool {
        let idx = index.0 as int;
        let cur = pre.locals@[idx].current;
        let t0 = pre.pool.spec_thread(cur.0);
        let picked = Self::spec_picked_next(pre, index);
        let nexth = match picked {
            Some(h) => h,
            None => pre.locals@[idx].idle.0,
        };
        if nexth == cur.0 {
            &&& post.locals@ == pre.locals@
            &&& Self::queues_eq(pre, post)
            &&& Self::pool_eq_except(pre, post, cur.0)
            &&& post.pool.spec_contains(cur.0)
            &&& Self::stats_updated(t0, post.pool.spec_thread(cur.0), now)
        } else {
            &&& post.locals@ == pre.locals@.update(
                idx,
                LocalScheduler {
                    current: ThreadHandle(nexth),
                    retired: None,
                    ..pre.locals@[idx]
                },
            )
            &&& post.pool.spec_contains(nexth)
            &&& ({
                let n0 = pre.pool.spec_thread(nexth);
                let n1 = post.pool.spec_thread(nexth);
                &&& !n1.attribute.has(ThreadAttributes::Awake)
                &&& !n1.attribute.has(ThreadAttributes::Asleep)
                &&& n1.attribute.has(ThreadAttributes::Queued) == n0.attribute.has(
                    ThreadAttributes::Queued,
                )
                &&& n1.attribute.has(ThreadAttributes::Zombie) == n0.attribute.has(
                    ThreadAttributes::Zombie,
                )
                &&& n1.measure == now.0
                &&& n1 == (RawThread { attribute: n1.attribute, measure: n1.measure, ..n0 })
            })
            &&& forall|k: usize|
                k != cur.0 && k != nexth ==> #[trigger] post.pool.spec_contains(k)
                    == pre.pool.spec_contains(k)
            &&& forall|k: usize|
                k != cur.0 && k != nexth && pre.pool.spec_contains(k)
                    ==> #[trigger] post.pool.spec_thread(k) == pre.pool.spec_thread(k)
            &&& post.pool.spec_next_handle() == pre.pool.spec_next_handle()
            &&& ({
                if t0.priority == Priority::Idle {
                    &&& post.pool.spec_contains(cur.0)
                    &&& Self::stats_updated(t0, post.pool.spec_thread(cur.0), now)
                    &&& forall|p: Priority|
                        #[trigger] post.queue_contents(p) == Self::mid_queue(pre, index, p)
                } else if t0.attribute.has(ThreadAttributes::Zombie) {
                    &&& !post.pool.spec_contains(cur.0)
                    &&& forall|p: Priority|
                        #[trigger] post.queue_contents(p) == Self::mid_queue(pre, index, p)
                } else if t0.attribute.has(ThreadAttributes::Awake) || !t0.attribute.has(
                    ThreadAttributes::Asleep,
                ) {
                    let t1 = post.pool.spec_thread(cur.0);
                    &&& post.pool.spec_contains(cur.0)
                    &&& t1.attribute.has(ThreadAttributes::Queued)
                    &&& !t1.attribute.has(ThreadAttributes::Awake)
                    &&& !t1.attribute.has(ThreadAttributes::Asleep)
                    &&& !t1.attribute.has(ThreadAttributes::Zombie)
                    &&& Self::stats_updated(t0, (RawThread { attribute: t0.attribute, ..t1 }), now)
                    &&& post.queue_contents(t0.priority) == Self::mid_queue(
                        pre,
                        index,
                        t0.priority,
                    ).push(cur.0)
                    &&& forall|p: Priority|
                        p != t0.priority ==> #[trigger] post.queue_contents(p) == Self::mid_queue(
                            pre,
                            index,
                            p,
                        )
                } else {
                    let t1 = post.pool.spec_thread(cur.0);
                    &&& post.pool.spec_contains(cur.0)
                    &&& !t1.attribute.has(ThreadAttributes::Queued)
                    &&& t1.attribute.has(ThreadAttributes::Asleep)
                    &&& !t1.attribute.has(ThreadAttributes::Awake)
                    &&& !t1.attribute.has(ThreadAttributes::Zombie)
                    &&& Self::stats_updated(t0, (RawThread { attribute: t0.attribute, ..t1 }), now)
                    &&& forall|p: Priority|
                        #[trigger] post.queue_contents(p) == Self::mid_queue(pre, index, p)
                }
            })
        }
    }

    /// Settle the running thread's statistics, pick what CPU `index` runs
    /// next and do the retire bookkeeping around the context switch. The
    /// architectural switch itself — saving and loading register state —
    /// happens in the machine layer between setting the new current thread
    /// and the post-switch cleanup; its effect on the scheduler's state is
    /// exactly what is stated here.
    ///
    /// Must run with interrupts off. The outgoing thread's band queue must
    /// have room when it is headed back there, as the kernel's retire path
    /// cannot fail.
    pub fn switch_context(&mut self, index: ProcessorIndex, now: TimeSpec)
        requires
            old(self).wf(),
            index.0 < old(self).locals@.len(),
            old(self).locals@[index.0 as int].retired is None,
            ({
                let cur = old(self).locals@[index.0 as int].current;
                let t = old(self).pool.spec_thread(cur.0);
                t.priority != Priority::Idle && !t.attribute.has(ThreadAttributes::Zombie) && (
                t.attribute.has(ThreadAttributes::Awake) || !t.attribute.has(
                    ThreadAttributes::Asleep,
                )) ==> old(self).queue_contents(t.priority).len() < old(self).queue_capacity(
                    t.priority,
                )
            }),
        ensures
            final(self).wf(),
            Self::frame_eq_for_switch(*old(self), *final(self)),
            forall|p: Priority|
                #[trigger] final(self).queue_capacity(p) == old(self).queue_capacity(p),
            final(self).locals@.len() == old(self).locals@.len(),
            final(self).locals@[index.0 as int].idle == old(self).locals@[index.0 as int].idle,
            final(self).locals@[index.0 as int].retired is None,
            Self::switch_outcome(*old(self), *final(self), index, now),
    {
        let ghost s0 = *self;
        let cur = self.locals[index.0].current;
        let idle = self.locals[index.0].idle;
        proof {
            assert(s0.local_ok(index.0 as int));
        }
        let picked = self.next(index);
        let ghost s1 = *self;
        let nexth = match picked {
            Some(h) => h.0,
            None => idle.0,
        };
        {
            let t = self.pool.get_mut(cur);
            let diff = if now.0 >= t.measure {
                now.0 - t.measure
            } else {
                0
            };
            t.cpu_time = if t.cpu_time <= usize::MAX - diff {
                t.cpu_time + diff
            } else {
                usize::MAX
            };
            let d32: u32 = if diff >= u32::MAX as usize {
                u32::MAX
            } else {
                diff as u32
            };
            t.load0 = if t.load0 <= u32::MAX - d32 {
                t.load0 + d32
            } else {
                u32::MAX
            };
            t.measure = now.0;
        }
        let ghost s2 = *self;
        proof {
            Self::lemma_wf_after_pool_update(s1, s2, cur.0);
            assert(Self::stats_updated(s0.pool.spec_thread(cur.0), s2.pool.spec_thread(cur.0), now));
        }
        if nexth == cur.0 {
            proof {
                if picked is Some {
                    assert(s1.local_owns(index.0 as int, cur.0));
                    assert(s1.is_local(cur.0));
                    assert(false);
                }
                assert(Self::queues_eq(s0, s2)) by {
                    assert forall|p: Priority| #[trigger] s2.queue_contents(p)
                        == s0.queue_contents(p) by {
                        assert(s1.queue_contents(p) == s0.queue_contents(p));
                    }
                    assert forall|p: Priority| #[trigger] s2.queue_capacity(p)
                        == s0.queue_capacity(p) by {
                        assert(s1.queue_capacity(p) == s0.queue_capacity(p));
                    }
                }
            }
            return ;
        }
        // The handles differ: a real switch. Publish the new current thread
        // and remember the outgoing one.
        let lcopy = self.locals[index.0];
        self.locals.set(
            index.0,
            LocalScheduler { current: ThreadHandle(nexth), retired: None, ..lcopy },
        );
        // The machine layer performs the hardware context switch here: the
        // outgoing thread's registers are saved and the new thread's are
        // loaded. Control continues below on the new thread.
        {
            let t = self.pool.get_mut(ThreadHandle(nexth));
            t.attribute.remove(ThreadAttributes::Awake);
            t.attribute.remove(ThreadAttributes::Asleep);
            t.measure = now.0;
        }
        let ghost s4 = *self;
        proof {
            // The scheduler is well formed again before the outgoing thread
            // is retired: the new current thread came off a queue (or is this
            // CPU's idle thread), so no other CPU holds it; the outgoing
            // thread is now held by nobody.
            assert(s4.locals@ == s2.locals@.update(
                index.0 as int,
                LocalScheduler { current: ThreadHandle(nexth), retired: None, ..s2.locals@[index.0 as int] },
            ));
            if picked is Some {
                assert(!s1.is_local(nexth));
                assert(!s1.in_some_queue(nexth));
                assert(s1.pool.spec_thread(nexth).priority != Priority::Idle);
                assert(s2.pool.spec_thread(idle.0).priority == Priority::Idle) by {
                    assert(s0.local_ok(index.0 as int));
                }
                assert(nexth != idle.0);
            } else {
                assert(nexth == idle.0);
                assert forall|i: int|
                    0 <= i < s1.locals@.len() && i != index.0 as int implies !s1.local_owns(
                    i,
                    nexth,
                ) by {
                    assert(s1.local_owns(index.0 as int, nexth));
                }
            }
            assert forall|i: int| 0 <= i < s4.locals@.len() implies s4.local_ok(i) by {
                assert(s1.local_ok(i));
                if i != index.0 as int {
                    assert(!s1.local_owns(i, cur.0)) by {
                        assert(s1.local_owns(index.0 as int, cur.0));
                    }
                    if picked is Some {
                        assert(!s1.local_owns(i, nexth));
                    } else {
                        assert(!s1.local_owns(i, nexth));
                    }
                    assert(s4.locals@[i] == s1.locals@[i]);
                } else {
                    assert(s4.locals@[i].idle == s1.locals@[i].idle);
                    assert(s4.locals@[i].current.0 == nexth);
                    if picked is Some {
                        assert(s4.pool.spec_contains(nexth));
                        assert(s4.pool.spec_thread(nexth).attribute.has(ThreadAttributes::Queued));
                        assert(s4.pool.spec_thread(nexth).priority != Priority::Idle);
                    }
                    assert(s1.local_owns(index.0 as int, idle.0));
                    assert(s4.pool.spec_thread(idle.0).priority == Priority::Idle) by {
                        assert(s1.pool.spec_thread(idle.0).priority == Priority::Idle) by {
                            assert(s1.local_ok(index.0 as int));
                        }
                        if idle.0 == cur.0 {
                            assert(s2.pool.spec_thread(idle.0).priority == Priority::Idle);
                        }
                    }
                }
            }
            assert forall|i: int, j: int, hh: usize|
                0 <= i < s4.locals@.len() && 0 <= j < s4.locals@.len() && i != j
                    && #[trigger] s4.local_owns(i, hh) implies !(#[trigger] s4.local_owns(
                j,
                hh,
            )) by {
                if i == index.0 as int {
                    // CPU index now owns only its idle thread and the newcomer.
                    assert(s4.locals@[j] == s1.locals@[j]);
                    if s4.locals@[i].current.0 == hh || s4.locals@[i].idle.0 == hh {
                        if hh == nexth {
                            if picked is Some {
                                assert(!s1.local_owns(j, hh));
                            } else {
                                assert(!s1.local_owns(j, hh));
                            }
                        } else {
                            assert(hh == idle.0);
                            assert(s1.local_owns(index.0 as int, hh));
                            assert(!s1.local_owns(j, hh));
                        }
                    }
                    assert(s4.local_owns(j, hh) == s1.local_owns(j, hh));
                } else if j == index.0 as int {
                    assert(s4.locals@[i] == s1.locals@[i]);
                    assert(s1.local_owns(i, hh));
                    if hh == nexth {
                        if picked is Some {
                            assert(!s1.is_local(nexth));
                            assert(false);
                        } else {
                            assert(s1.local_owns(index.0 as int, nexth));
                            assert(false);
                        }
                    } else {
                        assert(!s4.local_owns(j, hh) || hh == idle.0);
                        if hh == idle.0 {
                            assert(s1.local_owns(index.0 as int, hh));
                            assert(false);
                        }
                    }
                } else {
                    assert(s4.locals@[i] == s1.locals@[i]);
                    assert(s4.locals@[j] == s1.locals@[j]);
                    assert(s1.local_owns(i, hh));
                    assert(!s1.local_owns(j, hh));
                }
            }
            assert forall|p: Priority|
                p != Priority::Idle implies s4.wf_queue(p) by {
                let q = s4.queue_contents(p);
                assert(q == s1.queue_contents(p));
                assert forall|k: int| 0 <= k < q.len() implies s4.queued_ok(#[trigger] q[k], p) by {
                    assert(s1.queued_ok(q[k], p));
                    assert(s1.queue_contents(p).contains(q[k]));
                    assert(q[k] != nexth);
                    assert(q[k] != cur.0) by {
                        assert(s1.local_owns(index.0 as int, cur.0));
                    }
                    assert forall|i: int|
                        0 <= i < s4.locals@.len() implies !s4.local_owns(i, q[k]) by {
                        assert(!s1.local_owns(i, q[k]));
                        if i == index.0 as int {
                            assert(s4.locals@[i].idle == s1.locals@[i].idle);
                        } else {
                            assert(s4.locals@[i] == s1.locals@[i]);
                        }
                    }
                }
            }
            assert(s4.wf_queue(Priority::Idle));
            assert(s4.wf());
            // What retire needs of the outgoing thread.
            if s4.pool.spec_thread(cur.0).priority != Priority::Idle {
                assert(cur.0 != idle.0) by {
                    assert(s0.local_ok(index.0 as int));
                }
                assert forall|i: int|
                    0 <= i < s4.locals@.len() implies !s4.local_owns(i, cur.0) by {
                    if i == index.0 as int {
                        assert(s4.locals@[i].idle.0 == idle.0);
                        assert(s4.locals@[i].current.0 == nexth);
                    } else {
                        assert(!s1.local_owns(i, cur.0)) by {
                            assert(s1.local_owns(index.0 as int, cur.0));
                        }
                        assert(s4.locals@[i] == s1.locals@[i]);
                    }
                }
                if s4.in_some_queue(cur.0) {
                    assert(s1.in_some_queue(cur.0));
                    Self::lemma_queue_member_not_local(s1, cur.0);
                    assert(s1.local_owns(index.0 as int, cur.0));
                    assert(false);
                }
                assert(s4.pool.spec_thread(cur.0).attribute.has(ThreadAttributes::Queued)) by {
                    assert(s0.local_ok(index.0 as int));
                }
            }
            // Queue bookkeeping so far: only the dispatch pop has happened.
            assert forall|p: Priority| #[trigger] s4.queue_contents(p) == Self::mid_queue(
                s0,
                index,
                p,
            ) by {
                assert(s4.queue_contents(p) == s1.queue_contents(p));
                if s0.dispatch_gated(index) {
                    assert(Self::queues_eq(s0, s1));
                }
            }
            assert forall|p: Priority| #[trigger] s4.queue_capacity(p) == s0.queue_capacity(
                p,
            ) by {
                assert(s1.queue_capacity(p) == s0.queue_capacity(p));
            }
            // Room for the re-queue paths of retire.
            let t4 = s4.pool.spec_thread(cur.0);
            if t4.priority != Priority::Idle && !t4.attribute.has(ThreadAttributes::Zombie) && (
            t4.attribute.has(ThreadAttributes::Awake) || !t4.attribute.has(
                ThreadAttributes::Asleep,
            )) {
                let t0full = s0.pool.spec_thread(cur.0);
                assert(t4.priority == t0full.priority);
                assert(t4.attribute == t0full.attribute);
                assert(s4.queue_contents(t4.priority).len() <= s0.queue_contents(
                    t4.priority,
                ).len());
            }
        }
        self.retire(cur);
        proof {
            let post = *self;
            assert(post.locals@[index.0 as int].retired is None);
            assert(post.locals@ == s0.locals@.update(
                index.0 as int,
                LocalScheduler {
                    current: ThreadHandle(nexth),
                    retired: None,
                    ..s0.locals@[index.0 as int]
                },
            )) by {
                assert(post.locals@ == s4.locals@);
                assert(s2.locals@ == s0.locals@);
                assert(s4.locals@ =~= s0.locals@.update(
                    index.0 as int,
                    LocalScheduler {
                        current: ThreadHandle(nexth),
                        retired: None,
                        ..s0.locals@[index.0 as int]
                    },
                ));
            }
            assert forall|p: Priority| #[trigger] post.queue_capacity(p) == s0.queue_capacity(
                p,
            ) by {
                assert(post.queue_capacity(p) == s4.queue_capacity(p));
            }
            let t4 = s4.pool.spec_thread(cur.0);
            let t0full = s0.pool.spec_thread(cur.0);
            assert(t4.priority == t0full.priority);
            assert(t4.attribute == t0full.attribute);
            if t0full.priority == Priority::Idle {
                assert(*self == s4);
                assert(Self::stats_updated(t0full, post.pool.spec_thread(cur.0), now));
                assert forall|p: Priority| #[trigger] post.queue_contents(p) == Self::mid_queue(
                    s0,
                    index,
                    p,
                ) by {
                    assert(post.queue_contents(p) == s4.queue_contents(p));
                }
            } else if t0full.attribute.has(ThreadAttributes::Zombie) {
                assert(!post.pool.spec_contains(cur.0));
                assert forall|p: Priority| #[trigger] post.queue_contents(p) == Self::mid_queue(
                    s0,
                    index,
                    p,
                ) by {
                    assert(Self::queues_eq(s4, post));
                    assert(post.queue_contents(p) == s4.queue_contents(p));
                }
            } else if t0full.attribute.has(ThreadAttributes::Awake) || !t0full.attribute.has(
                ThreadAttributes::Asleep,
            ) {
                assert(post.queue_contents(t0full.priority) == Self::mid_queue(
                    s0,
                    index,
                    t0full.priority,
                ).push(cur.0));
                assert forall|p: Priority|
                    p != t0full.priority implies #[trigger] post.queue_contents(p)
                    == Self::mid_queue(s0, index, p) by {
                }
                let t1 = post.pool.spec_thread(cur.0);
                assert(Self::stats_updated(t0full, (RawThread { attribute: t0full.attribute, ..t1 }), now));
            } else {
                let t1 = post.pool.spec_thread(cur.0);
                assert(Self::stats_updated(t0full, (RawThread { attribute: t0full.attribute, ..t1 }), now));
                assert forall|p: Priority| #[trigger] post.queue_contents(p) == Self::mid_queue(
                    s0,
                    index,
                    p,
                ) by {
                    assert(Self::queues_eq(s4, post));
                    assert(post.queue_contents(p) == s4.queue_contents(p));
                }
            }
            // Pool frame across both touched handles.
            assert forall|k: usize|
                k != cur.0 && k != nexth implies #[trigger] post.pool.spec_contains(k)
                == s0.pool.spec_contains(k) by {
                assert(s2.pool.spec_contains(k) == s1.pool.spec_contains(k));
                assert(s4.pool.spec_contains(k) == s2.pool.spec_contains(k));
            }
            assert forall|k: usize|
                k != cur.0 && k != nexth && s0.pool.spec_contains(k)
                implies #[trigger] post.pool.spec_thread(k) == s0.pool.spec_thread(k) by {
                assert(s2.pool.spec_thread(k) == s1.pool.spec_thread(k));
                assert(s4.pool.spec_thread(k) == s2.pool.spec_thread(k));
            }
        }
    }

    /// A handle on some run-queue is held by no CPU.
    proof fn lemma_queue_member_not_local(s: Scheduler, h: usize)
        requires
            s.wf(),
            s.in_some_queue(h),
        ensures
            !s.is_local(h),
    {
        if s.queue_contents(Priority::Realtime).contains(h) {
            let k = choose|k: int|
                0 <= k < s.queue_contents(Priority::Realtime).len() && s.queue_contents(
                    Priority::Realtime,
                )[k] == h;
            assert(s.queued_ok(s.queue_contents(Priority::Realtime)[k], Priority::Realtime));
        } else if s.queue_contents(Priority::High).contains(h) {
            let k = choose|k: int|
                0 <= k < s.queue_contents(Priority::High).len() && s.queue_contents(
                    Priority::High,
                )[k] == h;
            assert(s.queued_ok(s.queue_contents(Priority::High)[k], Priority::High));
        } else if s.queue_contents(Priority::Normal).contains(h) {
            let k = choose|k: int|
                0 <= k < s.queue_contents(Priority::Normal).len() && s.queue_contents(
                    Priority::Normal,
                )[k] == h;
            assert(s.queued_ok(s.queue_contents(Priority::Normal)[k], Priority::Normal));
        } else {
            let k = choose|k: int|
                0 <= k < s.queue_contents(Priority::Low).len() && s.queue_contents(
                    Priority::Low,
                )[k] == h;
            assert(s.queued_ok(s.queue_contents(Priority::Low)[k], Priority::Low));
        }
    }

    /// The fields a context switch never touches.
    pub open spec fn frame_eq_for_switch(pre: Scheduler, post: Scheduler) -> bool {
        &&& post.usage == pre.usage
        &&& post.usage_total == pre.usage_total
        &&& post.is_frozen == pre.is_frozen
        &&& post.enabled == pre.enabled
        &&& post.state == pre.state
        &&& post.next_timer == pre.next_timer
        &&& post.sem_timer == pre.sem_timer
        &&& post.timer_events == pre.timer_events
        &&& post.timer_queue.contents() == pre.timer_queue.contents()
        &&& post.timer_queue.capacity() == pre.timer_queue.capacity()
        &&& post.system == pre.system
        &&& post.next_pid == pre.next_pid
        &&& post.locals@.len() == pre.locals@.len()
    }

    /// `switch_outcome` with the outgoing thread's starting record given
    /// explicitly; used where a step (a quantum tick, going to sleep) has
    /// already rewritten that record before the switch.
    pub open spec fn switch_outcome_from(
        pre: Scheduler,
        post: Scheduler,
        index: ProcessorIndex,
        now: TimeSpec,
        t0: RawThread,
    ) -> bool {
        Self::switch_outcome_at(
            pre,
            post,
            index,
            now,
            t0,
            t0.attribute.has(ThreadAttributes::Zombie),
            t0.attribute.has(ThreadAttributes::Awake),
            t0.attribute.has(ThreadAttributes::Asleep),
        )
    }

    /// The core of the switch contract, with the outgoing thread's lifecycle
    /// flags given explicitly: `sleep` hands in `asleep` as already set, and
    /// `exit` hands in `zombie`.
    pub open spec fn switch_outcome_at(
        pre: Scheduler,
        post: Scheduler,
        index: ProcessorIndex,
        now: TimeSpec,
        t0: RawThread,
        zombie: bool,
        awake: bool,
        asleep: bool,
    ) -> bool {
        let idx = index.0 as int;
        let cur = pre.locals@[idx].current;
        let picked = Self::spec_picked_next(pre, index);
        let nexth = match picked {
            Some(h) => h,
            None => pre.locals@[idx].idle.0,
        };
        if nexth == cur.0 {
            &&& post.locals@ == pre.locals@
            &&& Self::queues_eq(pre, post)
            &&& Self::pool_eq_except(pre, post, cur.0)
            &&& post.pool.spec_contains(cur.0)
            &&& ({
                let t1 = post.pool.spec_thread(cur.0);
                &&& Self::stats_updated(t0, (RawThread { attribute: t0.attribute, ..t1 }), now)
                &&& t1.attribute.has(ThreadAttributes::Zombie) == zombie
                &&& t1.attribute.has(ThreadAttributes::Awake) == awake
                &&& t1.attribute.has(ThreadAttributes::Asleep) == asleep
                &&& t1.attribute.has(ThreadAttributes::Queued) == t0.attribute.has(
                    ThreadAttributes::Queued,
                )
            })
        } else {
            &&& post.locals@ == pre.locals@.update(
                idx,
                LocalScheduler {
                    current: ThreadHandle(nexth),
                    retired: None,
                    ..pre.locals@[idx]
                },
            )
            &&& post.pool.spec_contains(nexth)
            &&& ({
                let n0 = pre.pool.spec_thread(nexth);
                let n1 = post.pool.spec_thread(nexth);
                &&& !n1.attribute.has(ThreadAttributes::Awake)
                &&& !n1.attribute.has(ThreadAttributes::Asleep)
                &&& n1.attribute.has(ThreadAttributes::Queued) == n0.attribute.has(
                    ThreadAttributes::Queued,
                )
                &&& n1.attribute.has(ThreadAttributes::Zombie) == n0.attribute.has(
                    ThreadAttributes::Zombie,
                )
                &&& n1.measure == now.0
                &&& n1 == (RawThread { attribute: n1.attribute, measure: n1.measure, ..n0 })
            })
            &&& forall|k: usize|
                k != cur.0 && k != nexth ==> #[trigger] post.pool.spec_contains(k)
                    == pre.pool.spec_contains(k)
            &&& forall|k: usize|
                k != cur.0 && k != nexth && pre.pool.spec_contains(k)
                    ==> #[trigger] post.pool.spec_thread(k) == pre.pool.spec_thread(k)
            &&& post.pool.spec_next_handle() == pre.pool.spec_next_handle()
            &&& ({
                if t0.priority == Priority::Idle {
                    &&& post.pool.spec_contains(cur.0)
                    &&& ({
                        let t1 = post.pool.spec_thread(cur.0);
                        Self::stats_updated(t0, (RawThread { attribute: t0.attribute, ..t1 }), now)
                    })
                    &&& forall|p: Priority|
                        #[trigger] post.queue_contents(p) == Self::mid_queue(pre, index, p)
                } else if zombie {
                    &&& !post.pool.spec_contains(cur.0)
                    &&& forall|p: Priority|
                        #[trigger] post.queue_contents(p) == Self::mid_queue(pre, index, p)
                } else if awake || !asleep {
                    let t1 = post.pool.spec_thread(cur.0);
                    &&& post.pool.spec_contains(cur.0)
                    &&& t1.attribute.has(ThreadAttributes::Queued)
                    &&& !t1.attribute.has(ThreadAttributes::Awake)
                    &&& !t1.attribute.has(ThreadAttributes::Asleep)
                    &&& !t1.attribute.has(ThreadAttributes::Zombie)
                    &&& Self::stats_updated(t0, (RawThread { attribute: t0.attribute, ..t1 }), now)
                    &&& post.queue_contents(t0.priority) == Self::mid_queue(
                        pre,
                        index,
                        t0.priority,
                    ).push(cur.0)
                    &&& forall|p: Priority|
                        p != t0.priority ==> #[trigger] post.queue_contents(p) == Self::mid_queue(
                            pre,
                            index,
                            p,
                        )
                } else {
                    let t1 = post.pool.spec_thread(cur.0);
                    &&& post.pool.spec_contains(cur.0)
                    &&& !t1.attribute.has(ThreadAttributes::Queued)
                    &&& t1.attribute.has(ThreadAttributes::Asleep)
                    &&& !t1.attribute.has(ThreadAttributes::Awake)
                    &&& !t1.attribute.has(ThreadAttributes::Zombie)
                    &&& Self::stats_updated(t0, (RawThread { attribute: t0.attribute, ..t1 }), now)
                    &&& forall|p: Priority|
                        #[trigger] post.queue_contents(p) == Self::mid_queue(pre, index, p)
                }
            })
        }
    }

    /// Give up the CPU voluntarily: the running thread goes back to its
    /// queue (or onward per its flags) and the CPU takes the next thread.
    pub fn yield_thread(&mut self, index: ProcessorIndex, now: TimeSpec)
        requires
            old(self).wf(),
            index.0 < old(self).locals@.len(),
            old(self).locals@[index.0 as int].retired is None,
            ({
                let cur = old(self).locals@[index.0 as int].current;
                let t = old(self).pool.spec_thread(cur.0);
                t.priority != Priority::Idle && !t.attribute.has(ThreadAttributes::Zombie) && (
                t.attribute.has(ThreadAttributes::Awake) || !t.attribute.has(
                    ThreadAttributes::Asleep,
                )) ==> old(self).queue_contents(t.priority).len() < old(self).queue_capacity(
                    t.priority,
                )
            }),
        ensures
            final(self).wf(),
            Self::frame_eq_for_switch(*old(self), *final(self)),
            final(self).locals@[index.0 as int].idle == old(self).locals@[index.0 as int].idle,
            final(self).locals@[index.0 as int].retired is None,
            Self::switch_outcome(*old(self), *final(self), index, now),
    {
        self.switch_context(index, now);
    }

    /// Block the running thread: mark it `ASLEEP` and switch away. The
    /// retire path then takes it off its queue — unless a wake already
    /// raced in, in which case it goes straight back to Ready.
    pub fn sleep(&mut self, index: ProcessorIndex, now: TimeSpec)
        requires
            old(self).wf(),
            index.0 < old(self).locals@.len(),
            old(self).locals@[index.0 as int].retired is None,
            ({
                let cur = old(self).locals@[index.0 as int].current;
                let t = old(self).pool.spec_thread(cur.0);
                t.priority != Priority::Idle && !t.attribute.has(ThreadAttributes::Zombie)
                    && t.attribute.has(ThreadAttributes::Awake) ==> old(self).queue_contents(
                    t.priority,
                ).len() < old(self).queue_capacity(t.priority)
            }),
        ensures
            final(self).wf(),
            Self::frame_eq_for_switch(*old(self), *final(self)),
            final(self).locals@[index.0 as int].idle == old(self).locals@[index.0 as int].idle,
            final(self).locals@[index.0 as int].retired is None,
            ({
                let cur = old(self).locals@[index.0 as int].current;
                let t0 = old(self).pool.spec_thread(cur.0);
                Self::switch_outcome_at(
                    *old(self),
                    *final(self),
                    index,
                    now,
                    t0,
                    t0.attribute.has(ThreadAttributes::Zombie),
                    t0.attribute.has(ThreadAttributes::Awake),
                    true,
                )
            }),
    {
        let cur = self.locals[index.0].current;
        proof {
            assert(old(self).local_ok(index.0 as int));
        }
        let ghost s0 = *self;
        {
            let t = self.pool.get_mut(cur);
            t.attribute.insert(ThreadAttributes::Asleep);
        }
        proof {
            Self::lemma_wf_after_pool_update(s0, *self, cur.0);
        }
        self.switch_context(index, now);
    }

    /// Post-switch bookkeeping for a thread entered for the first time: the
    /// architecture's trampoline calls this before running the thread's
    /// entry function. It restarts the measurement of the new current
    /// thread; the retirement of the thread switched away from has already
    /// happened inside `switch_context`, which never leaves a retiree
    /// pending.
    pub fn sch_setup_new_thread(&mut self, index: ProcessorIndex, now: TimeSpec)
        requires
            old(self).wf(),
            index.0 < old(self).locals@.len(),
            old(self).locals@[index.0 as int].retired is None,
        ensures
            final(self).wf(),
            ({
                let cur = old(self).locals@[index.0 as int].current;
                &&& Self::pool_eq_except(*old(self), *final(self), cur.0)
                &&& Self::queues_eq(*old(self), *final(self))
                &&& final(self).locals@ == old(self).locals@
                &&& final(self).pool.spec_thread(cur.0).measure == now.0
                &&& final(self).pool.spec_thread(cur.0) == (RawThread {
                    measure: now.0,
                    ..old(self).pool.spec_thread(cur.0)
                })
            }),
    {
        let cur = self.locals[index.0].current;
        proof {
            assert(old(self).local_ok(index.0 as int));
        }
        let ghost s0 = *self;
        {
            let t = self.pool.get_mut(cur);
            t.measure = now.0;
        }
        proof {
            Self::lemma_wf_after_pool_update(s0, *self, cur.0);
        }
    }

    /// Burn one quantum tick on CPU `index`'s running thread and, when the
    /// quantum expires, switch to whatever the dispatch policy picks. A
    /// `Realtime` thread is never preempted here: it runs until it yields
    /// or sleeps. Nothing happens before the scheduler is started.
    pub fn reschedule(&mut self, index: ProcessorIndex, now: TimeSpec)
        requires
            old(self).wf(),
            index.0 < old(self).locals@.len(),
            old(self).locals@[index.0 as int].retired is None,
            ({
                let cur = old(self).locals@[index.0 as int].current;
                let t = old(self).pool.spec_thread(cur.0);
                t.priority != Priority::Idle && !t.attribute.has(ThreadAttributes::Zombie) && (
                t.attribute.has(ThreadAttributes::Awake) || !t.attribute.has(
                    ThreadAttributes::Asleep,
                )) ==> old(self).queue_contents(t.priority).len() < old(self).queue_capacity(
                    t.priority,
                )
            }),
        ensures
            final(self).wf(),
            !old(self).enabled ==> *final(self) == *old(self),
            ({
                let cur = old(self).locals@[index.0 as int].current;
                let t0 = old(self).pool.spec_thread(cur.0);
                old(self).enabled && t0.priority == Priority::Realtime ==> *final(self) == *old(self)
            }),
            ({
                let cur = old(self).locals@[index.0 as int].current;
                let t0 = old(self).pool.spec_thread(cur.0);
                old(self).enabled && t0.priority != Priority::Realtime && t0.quantum.current > 1
                    ==> {
                    &&& final(self).locals@ == old(self).locals@
                    &&& Self::queues_eq(*old(self), *final(self))
                    &&& Self::pool_eq_except(*old(self), *final(self), cur.0)
                    &&& final(self).pool.spec_thread(cur.0) == (RawThread {
                        quantum: crate::threads::Quantum {
                            current: (t0.quantum.current - 1) as u8,
                            default: t0.quantum.default,
                        },
                        ..t0
                    })
                }
            }),
            ({
                let cur = old(self).locals@[index.0 as int].current;
                let t0 = old(self).pool.spec_thread(cur.0);
                old(self).enabled && t0.priority != Priority::Realtime && t0.quantum.current <= 1
                    ==> Self::switch_outcome_from(
                    *old(self),
                    *final(self),
                    index,
                    now,
                    (RawThread {
                        quantum: crate::threads::Quantum {
                            current: t0.quantum.default,
                            default: t0.quantum.default,
                        },
                        ..t0
                    }),
                )
            }),
    {
        if !self.is_enabled() {
            return ;
        }
        let cur = self.locals[index.0].current;
        proof {
            assert(old(self).local_ok(index.0 as int));
        }
        let is_realtime = {
            let t = match self.pool.get(cur) {
                Some(t) => t,
                None => vstd::pervasive::unreached(),
            };
            matches!(t.priority, Priority::Realtime)
        };
        if is_realtime {
            return ;
        }
        let ghost s0 = *self;
        let expired = {
            let t = self.pool.get_mut(cur);
            t.quantum.consume()
        };
        proof {
            Self::lemma_wf_after_pool_update(s0, *self, cur.0);
        }
        if expired {
            self.switch_context(index, now);
        }
    }

    /// One signal of the timer semaphore: with nobody parked the count
    /// grows; otherwise the first waiter is removed and woken — marked
    /// `AWAKE`, and re-queued on its band unless it was already queued,
    /// stale, or its band's queue is full.
    pub open spec fn spec_timer_signal_outcome(pre: Scheduler, post: Scheduler) -> bool {
        &&& (pre.sem_timer.spec_waiting().len() == 0 ==> post.pool == pre.pool
            && post.sem_timer.spec_value() == pre.sem_timer.spec_value() + 1
            && post.sem_timer.spec_waiting() == pre.sem_timer.spec_waiting() && Self::queues_eq(
            pre,
            post,
        ))
        &&& (pre.sem_timer.spec_waiting().len() > 0 ==> {
            let w = pre.sem_timer.spec_waiting()[0];
            &&& post.sem_timer.spec_waiting() == pre.sem_timer.spec_waiting().drop_first()
            &&& post.sem_timer.spec_value() == pre.sem_timer.spec_value()
            &&& Self::pool_eq_except(pre, post, w.0)
            &&& (pre.pool.spec_contains(w.0) ==> post.pool.spec_contains(w.0)
                && post.pool.spec_thread(w.0) == (RawThread {
                attribute: post.pool.spec_thread(w.0).attribute,
                ..pre.pool.spec_thread(w.0)
            }) && post.pool.spec_thread(w.0).attribute.has(ThreadAttributes::Zombie)
                == pre.pool.spec_thread(w.0).attribute.has(ThreadAttributes::Zombie) && (
            pre.pool.spec_thread(w.0).attribute.has(ThreadAttributes::Queued)
                ==> post.pool.spec_thread(w.0).attribute.has(ThreadAttributes::Queued)))
            &&& forall|p: Priority|
                #[trigger] post.queue_contents(p).len() <= pre.queue_contents(p).len() + 1
            &&& forall|p: Priority| #[trigger] post.queue_capacity(p) == pre.queue_capacity(p)
        })
    }

    /// Hand a timer event to the timer thread: push its encoding onto the
    /// bounded ingress queue and signal the timer semaphore. A full queue
    /// hands the event back to the caller, who yields and retries; the
    /// pending events are unchanged.
    pub fn schedule_timer(&mut self, event: TimerEvent) -> (r: Result<(), TimerEvent>)
        requires
            old(self).wf(),
            old(self).sem_timer.spec_value() < i64::MAX,
        ensures
            final(self).wf(),
            final(self).locals@ == old(self).locals@,
            final(self).timer_events@ == old(self).timer_events@,
            final(self).next_timer == old(self).next_timer,
            final(self).state == old(self).state,
            final(self).is_frozen == old(self).is_frozen,
            final(self).enabled == old(self).enabled,
            final(self).system == old(self).system,
            final(self).timer_queue.capacity() == old(self).timer_queue.capacity(),
            old(self).timer_queue.contents().len() >= old(self).timer_queue.capacity() ==> {
                &&& (r matches Err(e) && e == event)
                &&& final(self).timer_queue.contents() == old(self).timer_queue.contents()
                &&& final(self).pool == old(self).pool
                &&& final(self).sem_timer == old(self).sem_timer
                &&& Self::queues_eq(*old(self), *final(self))
            },
            old(self).timer_queue.contents().len() < old(self).timer_queue.capacity() ==> {
                &&& r is Ok
                &&& final(self).timer_queue.contents() == old(self).timer_queue.contents().push(
                    event.spec_encode(),
                )
                &&& Self::spec_timer_signal_outcome(*old(self), *final(self))
            },
    {
        let enc = event.encode();
        let ghost s0 = *self;
        match self.timer_queue.enqueue(enc) {
            Err(e) => {
                proof {
                    Self::lemma_wf_views_preserved(s0, *self);
                }
                match TimerEvent::decode(e) {
                    Some(ev) => Err(ev),
                    None => vstd::pervasive::unreached(),
                }
            },
            Ok(()) => {
                proof {
                    assert forall|k: int|
                        0 <= k < self.timer_queue.contents().len() implies TimerEvent::spec_decode(
                        #[trigger] self.timer_queue.contents()[k],
                    ) is Some by {
                        if k < s0.timer_queue.contents().len() {
                            assert(self.timer_queue.contents()[k] == s0.timer_queue.contents()[k]);
                        } else {
                            crate::timer::lemma_encode_decode_roundtrip(event);
                        }
                    }
                    Self::lemma_wf_views_preserved_but_ingress(s0, *self);
                }
                let ghost s1 = *self;
                let woken = self.sem_timer.signal();
                proof {
                    Self::lemma_wf_views_preserved_but_ingress(s1, *self);
                }
                match woken {
                    Some(w) => {
                        let _ = self.wake(w);
                    },
                    None => {},
                }
                Ok(())
            },
        }
    }

    /// As `lemma_wf_views_preserved`, but the timer ingress queue may have
    /// changed, provided each element it now holds is a valid encoding.
    proof fn lemma_wf_views_preserved_but_ingress(pre: Scheduler, post: Scheduler)
        requires
            pre.wf(),
            post.pool == pre.pool,
            post.system == pre.system,
            post.locals@ == pre.locals@,
            Self::queues_eq(pre, post),
            crate::timer::sorted_by_deadline(post.timer_events@),
            forall|k: int|
                0 <= k < post.timer_queue.contents().len() ==> TimerEvent::spec_decode(
                    #[trigger] post.timer_queue.contents()[k],
                ) is Some,
        ensures
            post.wf(),
    {
        assert forall|i: int| 0 <= i < post.locals@.len() implies post.local_ok(i) by {
            assert(pre.local_ok(i));
        }
        assert forall|i: int, j: int, hh: usize|
            0 <= i < post.locals@.len() && 0 <= j < post.locals@.len() && i != j
                && #[trigger] post.local_owns(i, hh) implies !(#[trigger] post.local_owns(
            j,
            hh,
        )) by {
            assert(post.local_owns(i, hh) == pre.local_owns(i, hh));
            assert(post.local_owns(j, hh) == pre.local_owns(j, hh));
        }
        assert forall|p: Priority|
            p != Priority::Idle implies post.wf_queue(p) by {
            assert(post.queue_contents(p) == pre.queue_contents(p));
            let q = post.queue_contents(p);
            assert forall|k: int| 0 <= k < q.len() implies post.queued_ok(#[trigger] q[k], p) by {
                assert(pre.queued_ok(q[k], p));
                assert forall|i: int|
                    0 <= i < post.locals@.len() implies !post.local_owns(i, q[k]) by {
                    assert(!pre.local_owns(i, q[k]));
                }
            }
        }
        assert(post.wf_queue(Priority::Idle));
    }

    /// The pre-signal step of the dispatch path: when the recorded next
    /// deadline has passed, signal the timer semaphore so the timer thread
    /// runs soon, waking it if it is parked.
    pub fn check_timer(&mut self, now: TimeSpec)
        requires
            old(self).wf(),
            old(self).sem_timer.spec_value() < i64::MAX,
        ensures
            final(self).wf(),
            old(self).next_timer.spec_until(now) ==> *final(self) == *old(self),
            !old(self).next_timer.spec_until(now) ==> Self::spec_timer_signal_outcome(
                *old(self),
                *final(self),
            ),
            final(self).locals@ == old(self).locals@,
            final(self).timer_events@ == old(self).timer_events@,
            final(self).timer_queue.contents() == old(self).timer_queue.contents(),
            final(self).timer_queue.capacity() == old(self).timer_queue.capacity(),
            final(self).next_timer == old(self).next_timer,
            final(self).state == old(self).state,
            final(self).is_frozen == old(self).is_frozen,
            final(self).enabled == old(self).enabled,
            final(self).system == old(self).system,
    {
        if !self.next_timer.until(now) {
            let ghost s0 = *self;
            let woken = self.sem_timer.signal();
            proof {
                Self::lemma_wf_views_preserved_but_ingress(s0, *self);
            }
            match woken {
                Some(w) => {
                    let _ = self.wake(w);
                },
                None => {},
            }
        }
    }

    /// The events a sequence of valid encodings stands for.
    pub open spec fn decoded_events(s: Seq<(usize, usize, usize, usize)>) -> Seq<TimerEvent> {
        s.map_values(|t: (usize, usize, usize, usize)| TimerEvent::spec_decode(t)->Some_0)
    }

    /// The timer thread's step at time `now`: drain the ingress queue into
    /// the deadline-ordered pending list, fire every event whose deadline
    /// has passed, and record the next pending deadline for the dispatch
    /// path's pre-signal. Firing a one-shot event wakes its thread; firing a
    /// window event is the caller's job, so the fired events are returned,
    /// in deadline order. No pending event is lost or duplicated, none
    /// fires early, and what remains pending is exactly what is not yet due.
    pub fn process_timer_events(&mut self, now: TimeSpec) -> (fired: Vec<TimerEvent>)
        requires
            old(self).wf(),
            old(self).timer_events@.len() + old(self).timer_queue.contents().len() < usize::MAX,
        ensures
            final(self).wf(),
            final(self).locals@ == old(self).locals@,
            final(self).state == old(self).state,
            final(self).is_frozen == old(self).is_frozen,
            final(self).enabled == old(self).enabled,
            final(self).sem_timer == old(self).sem_timer,
            final(self).timer_queue.contents() == Seq::<(usize, usize, usize, usize)>::empty(),
            crate::timer::sorted_by_deadline(fired@),
            crate::timer::sorted_by_deadline(final(self).timer_events@),
            forall|k: int| 0 <= k < fired@.len() ==> !(#[trigger] fired@[k]).timer.spec_until(now),
            forall|k: int|
                0 <= k < final(self).timer_events@.len() ==> (#[trigger] final(self).timer_events@[k]).timer.spec_until(now),
            final(self).timer_events@.to_multiset().add(fired@.to_multiset()) == old(self).timer_events@.to_multiset().add(
                Self::decoded_events(old(self).timer_queue.contents()).to_multiset(),
            ),
            final(self).timer_events@.len() > 0 ==> final(self).next_timer == final(self).timer_events@[0].timer,
            final(self).timer_events@.len() == 0 ==> final(self).next_timer == old(self).next_timer,
    {
        let ghost s0 = *self;
        let ghost ingress0 = s0.timer_queue.contents();
        proof {
            broadcast use vstd::seq_lib::group_to_multiset_ensures;

            assert(ingress0.take(0) =~= Seq::<(usize, usize, usize, usize)>::empty());
            assert(Self::decoded_events(ingress0.take(0)) =~= Seq::<TimerEvent>::empty());
            assert(s0.timer_events@.to_multiset() =~= s0.timer_events@.to_multiset().add(
                Self::decoded_events(ingress0.take(0)).to_multiset(),
            ));
        }
        let mut drained: usize = 0;
        loop
            invariant
                self.wf(),
                self.locals@ == s0.locals@,
                self.pool == s0.pool,
                Self::queues_eq(s0, *self),
                self.state == s0.state,
                self.is_frozen == s0.is_frozen,
                self.enabled == s0.enabled,
                self.sem_timer == s0.sem_timer,
                self.next_timer == s0.next_timer,
                self.usage == s0.usage,
                self.usage_total == s0.usage_total,
                self.system == s0.system,
                self.next_pid == s0.next_pid,
                self.timer_queue.capacity() == s0.timer_queue.capacity(),
                drained <= ingress0.len(),
                s0.timer_events@.len() + ingress0.len() < usize::MAX,
                self.timer_queue.contents() == ingress0.skip(drained as int),
                self.timer_events@.len() == s0.timer_events@.len() + drained,
                crate::timer::sorted_by_deadline(self.timer_events@),
                self.timer_events@.to_multiset() == s0.timer_events@.to_multiset().add(
                    Self::decoded_events(ingress0.take(drained as int)).to_multiset(),
                ),
            ensures
                self.wf(),
                self.locals@ == s0.locals@,
                self.pool == s0.pool,
                Self::queues_eq(s0, *self),
                self.state == s0.state,
                self.is_frozen == s0.is_frozen,
                self.enabled == s0.enabled,
                self.sem_timer == s0.sem_timer,
                self.next_timer == s0.next_timer,
                self.usage == s0.usage,
                self.usage_total == s0.usage_total,
                self.system == s0.system,
                self.next_pid == s0.next_pid,
                self.timer_queue.capacity() == s0.timer_queue.capacity(),
                self.timer_queue.contents() == Seq::<(usize, usize, usize, usize)>::empty(),
                crate::timer::sorted_by_deadline(self.timer_events@),
                self.timer_events@.to_multiset() == s0.timer_events@.to_multiset().add(
                    Self::decoded_events(ingress0).to_multiset(),
                ),
            decreases ingress0.len() - drained,
        {
            let ghost pre_iter = *self;
            let popped = self.timer_queue.dequeue();
            match popped {
                None => {
                    proof {
                        assert(Self::queues_eq(s0, *self)) by {
                            assert forall|p: Priority| #[trigger] self.queue_contents(p)
                                == s0.queue_contents(p) by {
                                assert(pre_iter.queue_contents(p) == s0.queue_contents(p));
                            }
                            assert forall|p: Priority| #[trigger] self.queue_capacity(p)
                                == s0.queue_capacity(p) by {
                                assert(pre_iter.queue_capacity(p) == s0.queue_capacity(p));
                            }
                        }
                        Self::lemma_wf_views_preserved_but_ingress(pre_iter, *self);
                        assert(ingress0.skip(drained as int).len() == 0);
                        assert(drained == ingress0.len());
                        assert(ingress0.take(drained as int) =~= ingress0);
                        assert(self.timer_queue.contents() =~= Seq::<
                            (usize, usize, usize, usize),
                        >::empty());
                    }
                    break ;
                },
                Some(t) => {
                    proof {
                        assert(drained < ingress0.len());
                        assert(pre_iter.timer_queue.contents()[0] == t);
                        assert(TimerEvent::spec_decode(t) is Some);
                        assert(self.timer_events@.len() < usize::MAX);
                    }
                    let e = match TimerEvent::decode(t) {
                        Some(e) => e,
                        None => vstd::pervasive::unreached(),
                    };
                    crate::timer::insert_sorted(&mut self.timer_events, e);
                    proof {
                        broadcast use vstd::seq_lib::group_to_multiset_ensures;

                        assert(Self::queues_eq(s0, *self)) by {
                            assert forall|p: Priority| #[trigger] self.queue_contents(p)
                                == s0.queue_contents(p) by {
                                assert(pre_iter.queue_contents(p) == s0.queue_contents(p));
                            }
                            assert forall|p: Priority| #[trigger] self.queue_capacity(p)
                                == s0.queue_capacity(p) by {
                                assert(pre_iter.queue_capacity(p) == s0.queue_capacity(p));
                            }
                        }
                        Self::lemma_wf_views_preserved_but_ingress(pre_iter, *self);
                        assert(ingress0.skip(drained as int).drop_first() =~= ingress0.skip(
                            drained + 1,
                        ));
                        let taken1 = ingress0.take(drained + 1);
                        let taken0 = ingress0.take(drained as int);
                        assert(taken1.drop_last() =~= taken0);
                        assert(taken1.last() == t);
                        assert(Self::decoded_events(taken1).drop_last() =~= Self::decoded_events(
                            taken0,
                        ));
                        assert(Self::decoded_events(taken1).last() == e);
                        Self::lemma_multiset_last(Self::decoded_events(taken1));
                        assert(self.timer_events@.to_multiset() =~= s0.timer_events@.to_multiset().add(
                            Self::decoded_events(taken1).to_multiset(),
                        ));
                    }
                    drained = drained + 1;
                },
            }
        }
        let ghost mid = *self;
        let mut fired: Vec<TimerEvent> = Vec::new();
        let mut stop = false;
        while !stop
            invariant
                self.wf(),
                self.locals@ == mid.locals@,
                self.state == mid.state,
                self.is_frozen == mid.is_frozen,
                self.enabled == mid.enabled,
                self.sem_timer == mid.sem_timer,
                self.next_timer == mid.next_timer,
                self.timer_queue.contents() == Seq::<(usize, usize, usize, usize)>::empty(),
                fired@.len() <= mid.timer_events@.len(),
                fired@ == mid.timer_events@.take(fired@.len() as int),
                self.timer_events@ == mid.timer_events@.skip(fired@.len() as int),
                crate::timer::sorted_by_deadline(mid.timer_events@),
                forall|k: int|
                    0 <= k < fired@.len() ==> !(#[trigger] fired@[k]).timer.spec_until(now),
                stop ==> self.timer_events@.len() == 0 || self.timer_events@[0].timer.spec_until(
                    now,
                ),
            decreases self.timer_events@.len() + (if stop {
                0int
            } else {
                1int
            }),
        {
            if self.timer_events.len() == 0 {
                stop = true;
            } else {
                let due = {
                    let head = &self.timer_events[0];
                    !head.until(now)
                };
                if !due {
                    stop = true;
                } else {
                    let ghost pre_fire = *self;
                    let e = self.timer_events.remove(0);
                    proof {
                        assert(self.timer_events@ =~= mid.timer_events@.skip(
                            fired@.len() as int + 1,
                        ));
                        assert(crate::timer::sorted_by_deadline(self.timer_events@));
                        assert(Self::queues_eq(pre_fire, *self)) by {
                            assert forall|p: Priority| #[trigger] self.queue_contents(p)
                                == pre_fire.queue_contents(p) by {}
                            assert forall|p: Priority| #[trigger] self.queue_capacity(p)
                                == pre_fire.queue_capacity(p) by {}
                        }
                        Self::lemma_wf_views_preserved_but_ingress(pre_fire, *self);
                    }
                    match e.timer_type {
                        crate::timer::TimerType::OneShot(h) => {
                            let _ = self.wake(h);
                        },
                        crate::timer::TimerType::Window(_, _) => {},
                    }
                    fired.push(e);
                    proof {
                        assert(e == mid.timer_events@[fired@.len() - 1]);
                        assert(fired@.drop_last() =~= mid.timer_events@.take(fired@.len() - 1));
                        assert(fired@ =~= mid.timer_events@.take(fired@.len() as int));
                    }
                }
            }
        }
        proof {
            broadcast use vstd::seq_lib::group_to_multiset_ensures;

            let n = fired@.len() as int;
            assert(mid.timer_events@.take(n) + mid.timer_events@.skip(n) =~= mid.timer_events@);
            vstd::seq_lib::lemma_multiset_commutative(
                mid.timer_events@.take(n),
                mid.timer_events@.skip(n),
            );
            assert(self.timer_events@.to_multiset().add(fired@.to_multiset())
                =~= mid.timer_events@.to_multiset());
            assert(self.timer_events@.to_multiset().add(fired@.to_multiset())
                =~= s0.timer_events@.to_multiset().add(
                Self::decoded_events(ingress0).to_multiset(),
            ));
            assert forall|k: int|
                0 <= k < self.timer_events@.len() implies (#[trigger] self.timer_events@[k]).timer.spec_until(
                now,
            ) by {
                assert(self.timer_events@.len() > 0);
                assert(self.timer_events@[0].timer.spec_until(now));
                assert(self.timer_events@[0] == mid.timer_events@[n]);
                assert(self.timer_events@[k] == mid.timer_events@[n + k]);
                assert(mid.timer_events@[n].timer.deadline.0 <= mid.timer_events@[n
                    + k].timer.deadline.0);
            }
            assert forall|k1: int, k2: int|
                0 <= k1 < k2 < fired@.len() implies #[trigger] fired@[k1].timer.deadline.0
                <= #[trigger] fired@[k2].timer.deadline.0 by {
                assert(fired@[k1] == mid.timer_events@[k1]);
                assert(fired@[k2] == mid.timer_events@[k2]);
            }
        }
        if self.timer_events.len() > 0 {
            let head_timer = self.timer_events[0].timer;
            let ghost before_nt = *self;
            self.next_timer = head_timer;
            proof {
                assert(Self::queues_eq(before_nt, *self)) by {
                    assert forall|p: Priority| #[trigger] self.queue_contents(p)
                        == before_nt.queue_contents(p) by {}
                    assert forall|p: Priority| #[trigger] self.queue_capacity(p)
                        == before_nt.queue_capacity(p) by {}
                }
                Self::lemma_wf_views_preserved_but_ingress(before_nt, *self);
            }
        }
        fired
    }

    /// A non-empty sequence's multiset is its prefix's with the last element
    /// added.
    proof fn lemma_multiset_last(s: Seq<TimerEvent>)
        requires
            s.len() > 0,
        ensures
            s.to_multiset() == s.drop_last().to_multiset().insert(s.last()),
    {
        s.drop_last().to_multiset_ensures();
        assert(s.drop_last().push(s.last()) =~= s);
    }

    /// Runtime view of one band's queue length.
    fn band_len(&self, pri: Priority) -> (r: usize)
        ensures
            r == self.queue_contents(pri).len(),
    {
        match pri {
            Priority::Realtime => self.queue_realtime.len(),
            Priority::High => self.queue_higher.len(),
            Priority::Normal => self.queue_normal.len(),
            Priority::Low => self.queue_lower.len(),
            Priority::Idle => 0,
        }
    }

    /// Runtime view of one band's queue capacity.
    fn band_capacity(&self, pri: Priority) -> (r: usize)
        ensures
            r == self.queue_capacity(pri),
    {
        match pri {
            Priority::Realtime => self.queue_realtime.capacity_exec(),
            Priority::High => self.queue_higher.capacity_exec(),
            Priority::Normal => self.queue_normal.capacity_exec(),
            Priority::Low => self.queue_lower.capacity_exec(),
            Priority::Idle => 0,
        }
    }

    /// Create a thread and make it ready. The record joins the pool under
    /// the next fresh handle; a useful-priority thread is enqueued on its
    /// band at once, an idle-priority one only joins the pool. Fails without
    /// any effect when the band's queue is full, when the handle or the
    /// process counter space is exhausted.
    /// Whether a spawn with `options` can succeed: handle space remains, a
    /// fresh process tag remains when one is asked for, and the band's queue
    /// has room (an idle thread needs none). Spawning fails exactly when one
    /// of these is missing.
    pub open spec fn spec_can_spawn(pre: Scheduler, options: SpawnOption) -> bool {
        &&& pre.pool.spec_next_handle() < usize::MAX
        &&& (options.raise_pid ==> pre.next_pid < usize::MAX)
        &&& (options.priority != Priority::Idle ==> pre.queue_contents(options.priority).len()
            < pre.queue_capacity(options.priority))
    }

    /// Everything a spawn does: on failure, nothing; on success, a record
    /// under the next fresh handle joins the pool — with the asked-for
    /// priority, the right process tag, the name stored length-prefixed, a
    /// full default quantum, empty statistics and a fresh join semaphore —
    /// and a useful-priority thread lands on its band's queue, `QUEUED`.
    pub open spec fn spec_spawn_outcome(
        pre: Scheduler,
        post: Scheduler,
        index: ProcessorIndex,
        name: &str,
        options: SpawnOption,
        r: Option<ThreadHandle>,
    ) -> bool {
        if !Self::spec_can_spawn(pre, options) {
            r is None && post == pre
        } else {
            let h = pre.pool.spec_next_handle();
            let t = post.pool.spec_thread(h);
            &&& r == Some(ThreadHandle(h))
            &&& post.pool.spec_next_handle() == pre.pool.spec_next_handle() + 1
            &&& post.pool.spec_contains(h)
            &&& forall|k: usize|
                k != h ==> #[trigger] post.pool.spec_contains(k) == pre.pool.spec_contains(k)
            &&& forall|k: usize|
                k != h && pre.pool.spec_contains(k) ==> #[trigger] post.pool.spec_thread(k)
                    == pre.pool.spec_thread(k)
            &&& t.handle == ThreadHandle(h)
            &&& t.priority == options.priority
            &&& (options.raise_pid ==> t.pid == ProcessId(pre.next_pid) && post.next_pid
                == pre.next_pid + 1)
            &&& (!options.raise_pid ==> t.pid == (if pre.enabled {
                pre.pool.spec_thread(pre.locals@[index.0 as int].current.0).pid
            } else {
                ProcessId(0)
            }) && post.next_pid == pre.next_pid)
            &&& t.quantum.current == crate::threads::spec_default_quantum(options.priority)
            &&& t.quantum.default == crate::threads::spec_default_quantum(options.priority)
            &&& t.sem.spec_value() == 0
            &&& t.sem.spec_waiting() == Seq::<ThreadHandle>::empty()
            &&& t.measure == 0
            &&& t.cpu_time == 0
            &&& t.load0 == 0
            &&& t.load == 0
            &&& t.executor is None
            &&& t.personality == options.personality
            &&& t.name@.len() == crate::threads::THREAD_NAME_LENGTH
            &&& t.name@[0] == crate::threads::stored_name_len(name.spec_bytes()) as u8
            &&& forall|j: int|
                0 <= j < crate::threads::stored_name_len(name.spec_bytes()) ==> t.name@[j + 1]
                    == name.spec_bytes()[j]
            &&& (options.priority != Priority::Idle ==> {
                &&& t.attribute.has(ThreadAttributes::Queued)
                &&& !t.attribute.has(ThreadAttributes::Awake)
                &&& !t.attribute.has(ThreadAttributes::Asleep)
                &&& !t.attribute.has(ThreadAttributes::Zombie)
                &&& post.queue_contents(options.priority) == pre.queue_contents(
                    options.priority,
                ).push(h)
                &&& forall|p: Priority|
                    p != options.priority ==> #[trigger] post.queue_contents(p)
                        == pre.queue_contents(p)
            })
            &&& (options.priority == Priority::Idle ==> (forall|k: crate::flags::ThreadAttributes|
                !t.attribute.has(k)) && Self::queues_eq(pre, post))
            &&& forall|p: Priority| #[trigger] post.queue_capacity(p) == pre.queue_capacity(p)
            &&& post.locals@ == pre.locals@
            &&& post.state == pre.state
            &&& post.is_frozen == pre.is_frozen
            &&& post.enabled == pre.enabled
            &&& post.system == pre.system
            &&& post.sem_timer == pre.sem_timer
            &&& post.timer_events@ == pre.timer_events@
            &&& post.timer_queue.contents() == pre.timer_queue.contents()
            &&& post.timer_queue.capacity() == pre.timer_queue.capacity()
            &&& post.next_timer == pre.next_timer
        }
    }

    /// Create a thread and make it ready. The record joins the pool under
    /// the next fresh handle; a useful-priority thread is enqueued on its
    /// band at once, an idle-priority one only joins the pool. Succeeds
    /// exactly under `spec_can_spawn`: it fails, with no effect, only on a
    /// full band queue or exhausted handle or process-tag space.
    pub fn spawn_f(&mut self, index: ProcessorIndex, name: &str, options: SpawnOption) -> (r:
        Option<ThreadHandle>)
        requires
            old(self).wf(),
            index.0 < old(self).locals@.len(),
        ensures
            final(self).wf(),
            Self::spec_spawn_outcome(*old(self), *final(self), index, name, options, r),
    {
        if self.pool.next_handle() >= usize::MAX {
            return None;
        }
        if options.raise_pid && self.next_pid >= usize::MAX {
            return None;
        }
        let useful = options.priority.is_useful();
        if useful {
            let len = self.band_len(options.priority);
            let cap = self.band_capacity(options.priority);
            if len >= cap {
                return None;
            }
        }
        let pid = if options.raise_pid {
            let p = self.next_pid;
            self.next_pid = self.next_pid + 1;
            ProcessId(p)
        } else {
            match self.current_pid(index) {
                Some(p) => p,
                None => ProcessId(0),
            }
        };
        let handle = ThreadHandle(self.pool.next_handle());
        let t = RawThread::new(handle, pid, options.priority, name, options.personality);
        let ghost s1 = *self;
        proof {
            Self::lemma_wf_views_preserved(*old(self), s1);
        }
        self.pool.add(t);
        proof {
            Self::lemma_wf_after_fresh_add(s1, *self, handle.0);
        }
        let added = self.add(handle);
        proof {
            assert(added is Ok);
        }
        Some(handle)
    }

    /// Adding a record under a fresh handle preserves the invariant: nothing
    /// in the scheduler refers to a handle that was never given out.
    proof fn lemma_wf_after_fresh_add(pre: Scheduler, post: Scheduler, h: usize)
        requires
            pre.wf(),
            post.pool.wf(),
            post.system == pre.system,
            post.locals@ == pre.locals@,
            Self::queues_eq(pre, post),
            post.timer_queue.contents() == pre.timer_queue.contents(),
            post.timer_events@ == pre.timer_events@,
            h == pre.pool.spec_next_handle(),
            pre.pool.data@.len() < usize::MAX,
            forall|k: usize|
                k != h ==> #[trigger] post.pool.spec_contains(k) == pre.pool.spec_contains(k),
            forall|k: usize|
                k != h && pre.pool.spec_contains(k) ==> #[trigger] post.pool.spec_thread(k)
                    == pre.pool.spec_thread(k),
        ensures
            post.wf(),
    {
        assert forall|i: int| 0 <= i < post.locals@.len() implies post.local_ok(i) by {
            assert(pre.local_ok(i));
            assert(pre.pool.spec_contains(pre.locals@[i].idle.0));
            assert(pre.locals@[i].idle.0 < pre.pool.data@.len());
            assert(pre.locals@[i].idle.0 != h);
            assert(pre.pool.spec_contains(pre.locals@[i].current.0));
            assert(pre.locals@[i].current.0 != h);
            if pre.locals@[i].retired is Some {
                assert(pre.pool.spec_contains((pre.locals@[i].retired)->Some_0.0));
                assert((pre.locals@[i].retired)->Some_0.0 != h);
            }
        }
        assert forall|i: int, j: int, hh: usize|
            0 <= i < post.locals@.len() && 0 <= j < post.locals@.len() && i != j
                && #[trigger] post.local_owns(i, hh) implies !(#[trigger] post.local_owns(
            j,
            hh,
        )) by {
            assert(post.local_owns(i, hh) == pre.local_owns(i, hh));
            assert(post.local_owns(j, hh) == pre.local_owns(j, hh));
        }
        assert forall|p: Priority|
            p != Priority::Idle implies post.wf_queue(p) by {
            assert(post.queue_contents(p) == pre.queue_contents(p));
            let q = post.queue_contents(p);
            assert forall|k: int| 0 <= k < q.len() implies post.queued_ok(#[trigger] q[k], p) by {
                assert(pre.queued_ok(q[k], p));
                assert(pre.pool.spec_contains(q[k]));
                assert(q[k] < pre.pool.data@.len());
                assert(q[k] != h);
                assert forall|i: int|
                    0 <= i < post.locals@.len() implies !post.local_owns(i, q[k]) by {
                    assert(!pre.local_owns(i, q[k]));
                }
            }
        }
        assert(post.wf_queue(Priority::Idle));
    }

    /// End the running thread: signal its join semaphore (waking the first
    /// joiner, if any), mark it a zombie, and switch away; the retire path
    /// drops the record from the pool, once and for all. The handle never
    /// returns.
    pub fn exit(&mut self, index: ProcessorIndex, now: TimeSpec) -> (personality: Option<usize>)
        requires
            old(self).wf(),
            index.0 < old(self).locals@.len(),
            old(self).locals@[index.0 as int].retired is None,
            old(self).pool.spec_thread(
                old(self).locals@[index.0 as int].current.0,
            ).priority != Priority::Idle,
            old(self).pool.spec_thread(
                old(self).locals@[index.0 as int].current.0,
            ).sem.spec_value() < i64::MAX,
        ensures
            final(self).wf(),
            !final(self).pool.spec_contains(old(self).locals@[index.0 as int].current.0),
            final(self).pool.spec_next_handle() == old(self).pool.spec_next_handle(),
            final(self).locals@.len() == old(self).locals@.len(),
            final(self).locals@[index.0 as int].retired is None,
            final(self).locals@[index.0 as int].current != old(self).locals@[index.0 as int].current,
            // The exiting thread's personality tag comes back: the caller
            // must run its exit hook, as the record is gone.
            personality == old(self).pool.spec_thread(
                old(self).locals@[index.0 as int].current.0,
            ).personality,
    {
        let cur = self.locals[index.0].current;
        proof {
            assert(old(self).local_ok(index.0 as int));
        }
        let personality = match self.pool.get(cur) {
            Some(t) => t.personality,
            None => vstd::pervasive::unreached(),
        };
        let ghost s0 = *self;
        let woken = {
            let t = self.pool.get_mut(cur);
            t.sem.signal()
        };
        proof {
            Self::lemma_wf_after_pool_update(s0, *self, cur.0);
        }
        match woken {
            Some(w) => {
                let _ = self.wake(w);
            },
            None => {},
        }
        let ghost s1 = *self;
        {
            let t = self.pool.get_mut(cur);
            t.attribute.insert(ThreadAttributes::Zombie);
        }
        proof {
            Self::lemma_wf_after_pool_update(s1, *self, cur.0);
            assert(self.locals@[index.0 as int].current == cur);
            assert(self.local_ok(index.0 as int));
        }
        let ghost s2 = *self;
        self.sleep(index, now);
        proof {
            let t2 = s2.pool.spec_thread(cur.0);
            assert(t2.priority != Priority::Idle);
            assert(t2.attribute.has(ThreadAttributes::Zombie));
            let picked = Self::spec_picked_next(s2, index);
            let nexth = match picked {
                Some(h) => h,
                None => s2.locals@[index.0 as int].idle.0,
            };
            if nexth == cur.0 {
                if picked is Some {
                    Self::lemma_queue_member_not_local(s2, nexth);
                    assert(s2.local_owns(index.0 as int, cur.0));
                    assert(false);
                } else {
                    assert(s2.pool.spec_thread(s2.locals@[index.0 as int].idle.0).priority
                        == Priority::Idle) by {
                        assert(s2.local_ok(index.0 as int));
                    }
                    assert(false);
                }
            }
        }
        personality
    }

    /// Wait for thread `target` to exit: take a unit from its join
    /// semaphore, or record the caller as a waiter and block. A stale handle
    /// returns at once, as the thread is already gone.
    pub fn join(&mut self, target: ThreadHandle, index: ProcessorIndex, now: TimeSpec)
        requires
            old(self).wf(),
            index.0 < old(self).locals@.len(),
            old(self).locals@[index.0 as int].retired is None,
            ({
                let cur = old(self).locals@[index.0 as int].current;
                let t = old(self).pool.spec_thread(cur.0);
                t.priority != Priority::Idle && !t.attribute.has(ThreadAttributes::Zombie)
                    && t.attribute.has(ThreadAttributes::Awake) ==> old(self).queue_contents(
                    t.priority,
                ).len() < old(self).queue_capacity(t.priority)
            }),
        ensures
            final(self).wf(),
            final(self).locals@[index.0 as int].retired is None,
            !old(self).pool.spec_contains(target.0) ==> *final(self) == *old(self),
            ({
                // A banked exit signal satisfies the join at once: one unit is
                // taken, nothing blocks, nothing else moves.
                let t = old(self).pool.spec_thread(target.0);
                old(self).pool.spec_contains(target.0) && t.sem.spec_value() > 0 ==> {
                    let tn = final(self).pool.spec_thread(target.0);
                    &&& final(self).pool.spec_contains(target.0)
                    &&& Self::pool_eq_except(*old(self), *final(self), target.0)
                    &&& tn.sem.spec_value() == t.sem.spec_value() - 1
                    &&& tn.sem.spec_waiting() == t.sem.spec_waiting()
                    &&& tn == (RawThread { sem: tn.sem, ..t })
                    &&& final(self).locals@ == old(self).locals@
                    &&& Self::queues_eq(*old(self), *final(self))
                    &&& Self::frame_eq(*old(self), *final(self))
                }
            }),
            ({
                // No unit yet: the caller is recorded as a waiter on the
                // target's join semaphore and blocks through `sleep`.
                let cur = old(self).locals@[index.0 as int].current;
                let t = old(self).pool.spec_thread(target.0);
                old(self).pool.spec_contains(target.0) && t.sem.spec_value() <= 0 ==> {
                    &&& (final(self).pool.spec_contains(target.0)
                        ==> final(self).pool.spec_thread(target.0).sem.spec_waiting()
                        == t.sem.spec_waiting().push(cur) && final(self).pool.spec_thread(
                        target.0,
                    ).sem.spec_value() == t.sem.spec_value())
                    &&& ({
                        // The caller committed to sleeping: unless a racing
                        // wake or its own exit intervened, it is parked off
                        // the queues when the switch lands.
                        let tc = old(self).pool.spec_thread(cur.0);
                        tc.priority != Priority::Idle && !tc.attribute.has(
                            ThreadAttributes::Zombie,
                        ) && !tc.attribute.has(ThreadAttributes::Awake) ==> final(self).pool.spec_contains(cur.0) && final(self).pool.spec_thread(
                            cur.0,
                        ).attribute.has(ThreadAttributes::Asleep) && !final(self).pool.spec_thread(
                            cur.0,
                        ).attribute.has(ThreadAttributes::Queued)
                    })
                }
            }),
    {
        if !self.pool.contains(target) {
            return ;
        }
        let cur = self.locals[index.0].current;
        let ghost s0 = *self;
        let acquired = {
            let t = self.pool.get_mut(target);
            t.sem.wait(cur)
        };
        proof {
            Self::lemma_wf_after_pool_update(s0, *self, target.0);
            assert(self.locals@[index.0 as int].retired is None);
        }
        if !acquired {
            proof {
                let curh = self.locals@[index.0 as int].current;
                assert(s0.local_ok(index.0 as int));
                assert(s0.pool.spec_contains(curh.0));
                if curh.0 != target.0 {
                    assert(self.pool.spec_thread(curh.0) == s0.pool.spec_thread(curh.0));
                } else {
                    assert(self.pool.spec_thread(curh.0).attribute == s0.pool.spec_thread(
                        curh.0,
                    ).attribute);
                    assert(self.pool.spec_thread(curh.0).priority == s0.pool.spec_thread(
                        curh.0,
                    ).priority);
                }
            }
            let ghost s1 = *self;
            self.sleep(index, now);
            proof {
                let curh = s0.locals@[index.0 as int].current;
                let tc = s0.pool.spec_thread(curh.0);
                if tc.priority != Priority::Idle && !tc.attribute.has(ThreadAttributes::Zombie)
                    && !tc.attribute.has(ThreadAttributes::Awake) {
                    let picked = Self::spec_picked_next(s1, index);
                    let nexth = match picked {
                        Some(h) => h,
                        None => s1.locals@[index.0 as int].idle.0,
                    };
                    if nexth == curh.0 {
                        if picked is Some {
                            Self::lemma_queue_member_not_local(s1, nexth);
                            assert(s1.local_owns(index.0 as int, curh.0));
                            assert(false);
                        } else {
                            assert(s1.pool.spec_thread(s1.locals@[index.0 as int].idle.0).priority
                                == Priority::Idle) by {
                                assert(s1.local_ok(index.0 as int));
                            }
                            assert(s1.pool.spec_thread(curh.0).priority != Priority::Idle);
                            assert(false);
                        }
                    }
                    if target.0 != curh.0 && nexth != target.0 {
                        assert(self.pool.spec_thread(target.0) == s1.pool.spec_thread(target.0));
                    }
                }
            }
        }
    }

    /// The measured load of one thread: its accumulated running time since
    /// the last pass, scaled to thousandths of one CPU over the actual
    /// elapsed time, clamped to one full CPU.
    pub open spec fn spec_load_of(load0: u32, actual: usize) -> int {
        let v = (load0 * 1_000_000) / (actual * 1000);
        if v <= 1000 {
            v
        } else {
            1000
        }
    }

    /// Total measured load of the live non-idle threads in slots below
    /// `upto`.
    pub open spec fn spec_usage_sum(
        data: Seq<Option<RawThread>>,
        upto: int,
        actual: usize,
    ) -> int
        decreases upto,
    {
        if upto <= 0 {
            0
        } else {
            Self::spec_usage_sum(data, upto - 1, actual) + (match data[upto - 1] {
                Some(t) => if t.priority != Priority::Idle {
                    Self::spec_load_of(t.load0, actual)
                } else {
                    0
                },
                None => 0,
            })
        }
    }

    proof fn lemma_usage_sum_bound(data: Seq<Option<RawThread>>, upto: int, actual: usize)
        requires
            0 <= upto <= data.len(),
            actual >= 1,
        ensures
            0 <= Self::spec_usage_sum(data, upto, actual) <= upto * 1000,
        decreases upto,
    {
        if upto > 0 {
            Self::lemma_usage_sum_bound(data, upto - 1, actual);
        }
    }

    /// One pass of the load measurement, run about once a second: every
    /// thread's load accumulator is read and zeroed and its load stored,
    /// scaled over the `actual` microseconds that elapsed; the total is
    /// clamped to the CPU count, the per-CPU average to one CPU; and the
    /// operating state follows the thresholds: saving below `666`, full
    /// throttle above `750` per performance core, running in between.
    pub fn update_statistics(&mut self, actual: usize)
        requires
            old(self).wf(),
            1 <= actual <= 0xFFFF_FFFF,
            old(self).pool.data@.len() * 1000 < usize::MAX,
            old(self).system.spec_num_of_active_cpus() * 1000 < usize::MAX,
        ensures
            final(self).wf(),
            final(self).locals@ == old(self).locals@,
            Self::queues_eq(*old(self), *final(self)),
            final(self).pool.spec_next_handle() == old(self).pool.spec_next_handle(),
            forall|k: usize|
                #[trigger] final(self).pool.spec_contains(k) == old(self).pool.spec_contains(k),
            forall|k: usize|
                old(self).pool.spec_contains(k) ==> #[trigger] final(self).pool.spec_thread(k) == (
                RawThread {
                    load: Self::spec_load_of(old(self).pool.spec_thread(k).load0, actual) as u32,
                    load0: 0,
                    ..old(self).pool.spec_thread(k)
                }),
            ({
                let total = Self::spec_usage_sum(
                    old(self).pool.data@,
                    old(self).pool.data@.len() as int,
                    actual,
                );
                let ncpu = old(self).system.spec_num_of_active_cpus() as int;
                let clamped = if total <= ncpu * 1000 {
                    total
                } else {
                    ncpu * 1000
                };
                let per_cpu = if total / ncpu <= 1000 {
                    total / ncpu
                } else {
                    1000
                };
                &&& final(self).usage_total == clamped
                &&& final(self).usage == per_cpu
                &&& (clamped < THRESHOLD_SAVING ==> final(self).state == SchedulerState::Saving)
                &&& (clamped > System::count_main(old(self).system.cores@) * (
                THRESHOLD_FULL_THROTTLE_MODE as int) ==> final(self).state
                    == SchedulerState::FullThrottle)
                &&& (clamped >= THRESHOLD_SAVING && clamped <= System::count_main(
                    old(self).system.cores@,
                ) * (THRESHOLD_FULL_THROTTLE_MODE as int) ==> final(self).state
                    == SchedulerState::Running)
            }),
            final(self).timer_events@ == old(self).timer_events@,
            final(self).timer_queue.contents() == old(self).timer_queue.contents(),
            final(self).sem_timer == old(self).sem_timer,
            final(self).is_frozen == old(self).is_frozen,
            final(self).enabled == old(self).enabled,
            final(self).next_timer == old(self).next_timer,
            final(self).system == old(self).system,
    {
        let ghost s0 = *self;
        let len = self.pool.next_handle();
        proof {
            assert(s0.pool.data@[0] is None);
            assert(Self::spec_usage_sum(s0.pool.data@, 0, actual) == 0);
            assert(Self::spec_usage_sum(s0.pool.data@, 1, actual) == 0);
        }
        let mut usage: usize = 0;
        let mut h: usize = 1;
        while h < len
            invariant
                self.wf(),
                1 <= h <= len,
                len == s0.pool.data@.len(),
                len * 1000 < usize::MAX,
                1 <= actual <= 0xFFFF_FFFF,
                self.locals@ == s0.locals@,
                Self::queues_eq(s0, *self),
                self.pool.data@.len() == s0.pool.data@.len(),
                self.pool.spec_next_handle() == s0.pool.spec_next_handle(),
                self.state == s0.state,
                self.usage == s0.usage,
                self.usage_total == s0.usage_total,
                self.is_frozen == s0.is_frozen,
                self.enabled == s0.enabled,
                self.next_timer == s0.next_timer,
                self.sem_timer == s0.sem_timer,
                self.timer_events@ == s0.timer_events@,
                self.timer_queue.contents() == s0.timer_queue.contents(),
                self.timer_queue.capacity() == s0.timer_queue.capacity(),
                self.system == s0.system,
                self.next_pid == s0.next_pid,
                forall|k: usize|
                    #[trigger] self.pool.spec_contains(k) == s0.pool.spec_contains(k),
                forall|k: usize|
                    k >= h && s0.pool.spec_contains(k) ==> #[trigger] self.pool.spec_thread(k)
                        == s0.pool.spec_thread(k),
                forall|k: usize|
                    k < h && s0.pool.spec_contains(k) ==> #[trigger] self.pool.spec_thread(k) == (
                    RawThread {
                        load: Self::spec_load_of(s0.pool.spec_thread(k).load0, actual) as u32,
                        load0: 0,
                        ..s0.pool.spec_thread(k)
                    }),
                usage == Self::spec_usage_sum(s0.pool.data@, h as int, actual),
                usage <= (h - 1) * 1000,
            decreases len - h,
        {
            let handle = ThreadHandle(h);
            if self.pool.contains(handle) {
                let ghost pre = *self;
                let load: u32;
                {
                    let t = self.pool.get_mut(handle);
                    let load0 = t.load0;
                    let scaled: u64 = (load0 as u64) * 1_000_000 / ((actual as u64) * 1000);
                    load = if scaled <= 1000 {
                        scaled as u32
                    } else {
                        1000
                    };
                    t.load = load;
                    t.load0 = 0;
                }
                proof {
                    Self::lemma_wf_after_pool_update(pre, *self, h);
                    assert(Self::queues_eq(s0, *self)) by {
                        assert forall|p: Priority| #[trigger] self.queue_contents(p)
                            == s0.queue_contents(p) by {
                            assert(pre.queue_contents(p) == s0.queue_contents(p));
                        }
                        assert forall|p: Priority| #[trigger] self.queue_capacity(p)
                            == s0.queue_capacity(p) by {
                            assert(pre.queue_capacity(p) == s0.queue_capacity(p));
                        }
                    }
                    assert(load == Self::spec_load_of(s0.pool.spec_thread(h).load0, actual));
                }
                let is_useful = {
                    let t = match self.pool.get(handle) {
                        Some(t) => t,
                        None => vstd::pervasive::unreached(),
                    };
                    t.priority.is_useful()
                };
                if is_useful {
                    proof {
                        Self::lemma_usage_sum_bound(s0.pool.data@, h as int, actual);
                    }
                    usage = usage + load as usize;
                }
            }
            proof {
                assert(s0.pool.data@[h as int] is Some == s0.pool.spec_contains(h));
            }
            h = h + 1;
        }
        let ghost mid_fields = *self;
        let ncpu = self.system.num_of_active_cpus();
        proof {
            assert(ncpu >= 1);
            Self::lemma_usage_sum_bound(s0.pool.data@, len as int, actual);
            crate::system::lemma_count_main_le(self.system.cores@);
            crate::system::lemma_count_main_pos(self.system.cores@);
            assert(System::count_main(self.system.cores@) * 1000 <= (
            self.system.spec_num_of_active_cpus() as int) * 1000) by (nonlinear_arith)
                requires
                    System::count_main(self.system.cores@)
                        <= self.system.spec_num_of_active_cpus(),
            ;
        }
        let usage_total = if usage <= ncpu * 1000 {
            usage
        } else {
            ncpu * 1000
        };
        let usage_per_cpu = if usage / ncpu <= 1000 {
            usage / ncpu
        } else {
            1000
        };
        self.usage_total = usage_total;
        self.usage = usage_per_cpu;
        let num_perf = self.system.num_of_performance_cpus();
        if usage_total < THRESHOLD_SAVING {
            self.state = SchedulerState::Saving;
        } else if usage_total > num_perf * THRESHOLD_FULL_THROTTLE_MODE {
            self.state = SchedulerState::FullThrottle;
        } else {
            self.state = SchedulerState::Running;
        }
        proof {
            Self::lemma_wf_views_preserved(mid_fields, *self);
            assert(Self::queues_eq(s0, *self)) by {
                assert forall|p: Priority| #[trigger] self.queue_contents(p) == s0.queue_contents(
                    p,
                ) by {
                    assert(mid_fields.queue_contents(p) == s0.queue_contents(p));
                }
                assert forall|p: Priority| #[trigger] self.queue_capacity(p) == s0.queue_capacity(
                    p,
                ) by {
                    assert(mid_fields.queue_capacity(p) == s0.queue_capacity(p));
                }
            }
        }
    }

    /// The loads of the leading run of live idle threads in the pool, in
    /// handle order: what the boot idles report, one per CPU.
    pub open spec fn spec_idle_stats(data: Seq<Option<RawThread>>, from: int) -> Seq<u32>
        decreases data.len() - from,
    {
        if from < 1 || from >= data.len() {
            Seq::empty()
        } else {
            match data[from] {
                None => Self::spec_idle_stats(data, from + 1),
                Some(t) => if t.priority == Priority::Idle {
                    seq![t.load] + Self::spec_idle_stats(data, from + 1)
                } else {
                    Seq::empty()
                },
            }
        }
    }

    /// Collect the idle threads' measured loads into `vec`: one entry per
    /// CPU, since the per-CPU idle threads hold the first handles and a
    /// non-idle thread ends the walk.
    pub fn get_idle_statistics(&self, vec: &mut Vec<u32>)
        requires
            self.wf(),
        ensures
            final(vec)@ == Self::spec_idle_stats(self.pool.data@, 1),
    {
        vec.clear();
        let len = self.pool.next_handle();
        let mut h: usize = 1;
        while h < len
            invariant
                self.wf(),
                1 <= h <= len,
                len == self.pool.data@.len(),
                Self::spec_idle_stats(self.pool.data@, 1) == vec@ + Self::spec_idle_stats(
                    self.pool.data@,
                    h as int,
                ),
            decreases len - h,
        {
            let handle = ThreadHandle(h);
            match self.pool.get(handle) {
                None => {
                    proof {
                        assert(Self::spec_idle_stats(self.pool.data@, h as int)
                            == Self::spec_idle_stats(self.pool.data@, h + 1));
                    }
                },
                Some(t) => {
                    if t.priority.is_useful() {
                        proof {
                            assert(Self::spec_idle_stats(self.pool.data@, h as int)
                                =~= Seq::<u32>::empty());
                            assert(Self::spec_idle_stats(self.pool.data@, 1) =~= vec@);
                        }
                        return ;
                    }
                    let load = t.load;
                    vec.push(load);
                    proof {
                        assert(Self::spec_idle_stats(self.pool.data@, h as int) =~= seq![load]
                            + Self::spec_idle_stats(self.pool.data@, h + 1));
                        assert(vec@ + Self::spec_idle_stats(self.pool.data@, h + 1)
                            =~= vec@.drop_last() + Self::spec_idle_stats(self.pool.data@, h as int));
                    }
                },
            }
            h = h + 1;
        }
        proof {
            assert(Self::spec_idle_stats(self.pool.data@, len as int) =~= Seq::<u32>::empty());
            assert(Self::spec_idle_stats(self.pool.data@, 1) =~= vec@);
        }
    }

    /// Everything a timed sleep does. An already-expired deadline (a zero
    /// duration) is an unbounded wait: the thread sleeps at once, pending an
    /// explicit wake. A future deadline schedules a one-shot wake on the
    /// ingress queue and then sleeps; the blocking switch is stated exactly
    /// whenever the timer semaphore has no parked waiter (a parked timer
    /// thread is woken onto its queue first, as `spec_timer_signal_outcome`
    /// pins down). A full ingress queue hands the event back and the thread
    /// yields once.
    pub open spec fn spec_sleep_timed_outcome(
        pre: Scheduler,
        post: Scheduler,
        index: ProcessorIndex,
        now: TimeSpec,
        duration: TimeSpec,
        r: Result<(), TimerEvent>,
    ) -> bool {
        let timer = Timer { deadline: TimeSpec((now.0 + duration.0) as usize) };
        let cur = pre.locals@[index.0 as int].current;
        let t0 = pre.pool.spec_thread(cur.0);
        let event = TimerEvent { timer, timer_type: crate::timer::TimerType::OneShot(cur) };
        &&& (!timer.spec_until(now) ==> r is Ok && Self::switch_outcome_at(
            pre,
            post,
            index,
            now,
            t0,
            t0.attribute.has(ThreadAttributes::Zombie),
            t0.attribute.has(ThreadAttributes::Awake),
            true,
        ))
        &&& (timer.spec_until(now) && pre.timer_queue.contents().len() < pre.timer_queue.capacity()
            ==> {
            &&& r is Ok
            &&& post.timer_queue.contents() == pre.timer_queue.contents().push(
                event.spec_encode(),
            )
            &&& (pre.sem_timer.spec_waiting().len() == 0 ==> Self::switch_outcome_at(
                pre,
                post,
                index,
                now,
                t0,
                t0.attribute.has(ThreadAttributes::Zombie),
                t0.attribute.has(ThreadAttributes::Awake),
                true,
            ))
        })
        &&& (timer.spec_until(now) && pre.timer_queue.contents().len()
            >= pre.timer_queue.capacity() ==> {
            &&& (r matches Err(e) && e == event)
            &&& post.timer_queue.contents() == pre.timer_queue.contents()
            &&& Self::switch_outcome_at(
                pre,
                post,
                index,
                now,
                t0,
                t0.attribute.has(ThreadAttributes::Zombie),
                t0.attribute.has(ThreadAttributes::Awake),
                t0.attribute.has(ThreadAttributes::Asleep),
            )
        })
    }

    /// Sleep the running thread for `duration` ticks: schedule a one-shot
    /// wake at the deadline and block. An already-expired deadline returns
    /// at once. When the timer ingress queue is full, the thread yields once
    /// and the event comes back to the caller, who retries.
    /// `switch_outcome_at` is insensitive to the parts of the starting state
    /// a switch never reads: two starting states that agree on the pool, the
    /// CPU slots, every run-queue's contents and the dispatch gate yield the
    /// same outcome.
    proof fn lemma_switch_outcome_transfer(
        pre1: Scheduler,
        pre2: Scheduler,
        post: Scheduler,
        index: ProcessorIndex,
        now: TimeSpec,
        t0: RawThread,
        zombie: bool,
        awake: bool,
        asleep: bool,
    )
        requires
            Self::switch_outcome_at(pre2, post, index, now, t0, zombie, awake, asleep),
            pre1.pool == pre2.pool,
            pre1.locals@ == pre2.locals@,
            forall|p: Priority| #[trigger] pre1.queue_contents(p) == pre2.queue_contents(p),
            forall|p: Priority| #[trigger] pre1.queue_capacity(p) == pre2.queue_capacity(p),
            pre1.is_frozen == pre2.is_frozen,
            pre1.state == pre2.state,
            pre1.system == pre2.system,
        ensures
            Self::switch_outcome_at(pre1, post, index, now, t0, zombie, awake, asleep),
    {
        assert(pre1.dispatch_gated(index) == pre2.dispatch_gated(index));
        if Self::queues_eq(pre2, post) {
            assert(Self::queues_eq(pre1, post)) by {
                assert forall|p: Priority| #[trigger] post.queue_contents(p)
                    == pre1.queue_contents(p) by {
                    assert(post.queue_contents(p) == pre2.queue_contents(p));
                }
                assert forall|p: Priority| #[trigger] post.queue_capacity(p)
                    == pre1.queue_capacity(p) by {
                    assert(post.queue_capacity(p) == pre2.queue_capacity(p));
                }
            }
        }
        assert(pre1.queue_contents(Priority::Realtime) == pre2.queue_contents(Priority::Realtime));
        assert(pre1.queue_contents(Priority::High) == pre2.queue_contents(Priority::High));
        assert(pre1.queue_contents(Priority::Normal) == pre2.queue_contents(Priority::Normal));
        assert(pre1.queue_contents(Priority::Low) == pre2.queue_contents(Priority::Low));
        assert(Self::spec_picked_band(pre1, index) == Self::spec_picked_band(pre2, index));
        assert(Self::spec_picked_next(pre1, index) == Self::spec_picked_next(pre2, index));
        assert forall|p: Priority| #[trigger] Self::mid_queue(pre1, index, p) == Self::mid_queue(
            pre2,
            index,
            p,
        ) by {
            assert(pre1.queue_contents(p) == pre2.queue_contents(p));
        }
    }

    /// Sleep the running thread for `duration` ticks: schedule a one-shot
    /// wake at the deadline and block. A zero duration degenerates to an
    /// unconditional sleep pending an explicit wake. When the timer ingress
    /// queue is full, the thread yields once and the event comes back to the
    /// caller, who retries with a fresh clock reading. The blocking switch
    /// itself is stated exactly whenever the timer semaphore has no parked
    /// waiter; a parked timer thread is woken onto its queue first, which the
    /// signal clauses of `schedule_timer` pin down.
    pub fn sleep_timed(&mut self, index: ProcessorIndex, now: TimeSpec, duration: TimeSpec) -> (r:
        Result<(), TimerEvent>)
        requires
            old(self).wf(),
            old(self).enabled,
            index.0 < old(self).locals@.len(),
            old(self).locals@[index.0 as int].retired is None,
            now.0 + duration.0 <= usize::MAX,
            old(self).sem_timer.spec_value() < i64::MAX,
            ({
                let cur = old(self).locals@[index.0 as int].current;
                let t = old(self).pool.spec_thread(cur.0);
                t.priority != Priority::Idle && !t.attribute.has(ThreadAttributes::Zombie) ==> old(
                    self,
                ).queue_contents(t.priority).len() + 1 < old(self).queue_capacity(t.priority)
            }),
        ensures
            final(self).wf(),
            final(self).locals@[index.0 as int].retired is None,
            Self::spec_sleep_timed_outcome(*old(self), *final(self), index, now, duration, r),
    {
        let timer = Timer::new(now, duration);
        if !timer.until(now) {
            // An already-expired deadline means an unbounded wait: sleep
            // until an explicit wake.
            self.sleep(index, now);
            return Ok(());
        }
        let current = self.locals[index.0].current;
        let event = TimerEvent::one_shot(timer, current);
        let ghost s0 = *old(self);
        match self.schedule_timer(event) {
            Ok(()) => {
                proof {
                    assert(s0.local_ok(index.0 as int));
                    let curh = self.locals@[index.0 as int].current;
                    assert(curh == current);
                    let t0 = s0.pool.spec_thread(current.0);
                    if s0.sem_timer.spec_waiting().len() > 0 {
                        let w = s0.sem_timer.spec_waiting()[0];
                        if current.0 != w.0 {
                            assert(s0.pool.spec_contains(current.0));
                            assert(self.pool.spec_thread(current.0) == t0);
                        }
                    } else {
                        assert(self.pool.spec_thread(current.0) == t0);
                    }
                }
                let ghost s1 = *self;
                self.sleep(index, now);
                proof {
                    if s0.sem_timer.spec_waiting().len() == 0 {
                        let t0 = s0.pool.spec_thread(current.0);
                        Self::lemma_switch_outcome_transfer(
                            s0,
                            s1,
                            *self,
                            index,
                            now,
                            t0,
                            t0.attribute.has(ThreadAttributes::Zombie),
                            t0.attribute.has(ThreadAttributes::Awake),
                            true,
                        );
                    }
                }
                Ok(())
            },
            Err(e) => {
                proof {
                    assert(s0.local_ok(index.0 as int));
                }
                let ghost s1 = *self;
                self.yield_thread(index, now);
                proof {
                    let t0 = s0.pool.spec_thread(current.0);
                    assert(s1.pool == s0.pool);
                    Self::lemma_switch_outcome_transfer(
                        s0,
                        s1,
                        *self,
                        index,
                        now,
                        t0,
                        t0.attribute.has(ThreadAttributes::Zombie),
                        t0.attribute.has(ThreadAttributes::Awake),
                        t0.attribute.has(ThreadAttributes::Asleep),
                    );
                }
                Err(e)
            },
        }
    }

    /// Park the running thread until `object` is signalled or `duration`
    /// ticks pass: its handle goes into the signalling slot (if the slot is
    /// free), then the thread sleeps — against the timer for a positive
    /// duration, indefinitely otherwise.
    /// Park the running thread until `object` is signalled or `duration`
    /// ticks pass. The caller's handle goes into the signalling slot — the
    /// kernel's compare-and-swap parking: it stays out only if another
    /// handle is already parked there. Then the thread sleeps: against the
    /// timer for a positive duration; unconditionally, pending an explicit
    /// signal, for a zero one.
    pub fn wait_for(
        &mut self,
        object: &mut crate::semaphore::SignallingObject,
        index: ProcessorIndex,
        now: TimeSpec,
        duration: TimeSpec,
    ) -> (r: Result<(), TimerEvent>)
        requires
            old(self).wf(),
            old(self).enabled,
            index.0 < old(self).locals@.len(),
            old(self).locals@[index.0 as int].retired is None,
            now.0 + duration.0 <= usize::MAX,
            old(self).sem_timer.spec_value() < i64::MAX,
            ({
                let cur = old(self).locals@[index.0 as int].current;
                let t = old(self).pool.spec_thread(cur.0);
                t.priority != Priority::Idle && !t.attribute.has(ThreadAttributes::Zombie) ==> old(
                    self,
                ).queue_contents(t.priority).len() + 1 < old(self).queue_capacity(t.priority)
            }),
        ensures
            final(self).wf(),
            final(self).locals@[index.0 as int].retired is None,
            old(object).spec_slot() == 0 ==> final(object).spec_slot() == old(
                self,
            ).locals@[index.0 as int].current.0,
            old(object).spec_slot() != 0 ==> final(object).spec_slot() == old(object).spec_slot(),
            Self::spec_sleep_timed_outcome(*old(self), *final(self), index, now, duration, r),
    {
        let current = self.locals[index.0].current;
        let _ = object.set(current);
        if duration.0 > 0 {
            proof {
                assert(old(self).local_ok(index.0 as int));
            }
            self.sleep_timed(index, now, duration)
        } else {
            proof {
                assert(old(self).local_ok(index.0 as int));
            }
            self.sleep(index, now);
            Ok(())
        }
    }

    /// Queue an asynchronous task tag on the running thread, installing its
    /// executor on first use. The tasks themselves are futures owned by the
    /// machine layer; the scheduler tracks only their tags.
    pub fn spawn_async(&mut self, index: ProcessorIndex, task: usize)
        requires
            old(self).wf(),
            index.0 < old(self).locals@.len(),
            ({
                let cur = old(self).locals@[index.0 as int].current;
                match old(self).pool.spec_thread(cur.0).executor {
                    Some(q) => q@.len() < usize::MAX,
                    None => true,
                }
            }),
        ensures
            final(self).wf(),
            ({
                let cur = old(self).locals@[index.0 as int].current;
                let t = old(self).pool.spec_thread(cur.0);
                let tn = final(self).pool.spec_thread(cur.0);
                &&& Self::pool_eq_except(*old(self), *final(self), cur.0)
                &&& Self::queues_eq(*old(self), *final(self))
                &&& final(self).locals@ == old(self).locals@
                &&& tn.executor is Some
                &&& tn.executor->Some_0@ == (match t.executor {
                    Some(q) => q@.push(task),
                    None => seq![task],
                })
                &&& tn == (RawThread { executor: tn.executor, ..t })
            }),
    {
        let cur = self.locals[index.0].current;
        proof {
            assert(old(self).local_ok(index.0 as int));
        }
        let ghost s0 = *self;
        {
            let t = self.pool.get_mut(cur);
            match &mut t.executor {
                Some(q) => {
                    q.push(task);
                },
                None => {
                    let mut q: Vec<usize> = Vec::new();
                    q.push(task);
                    t.executor = Some(q);
                },
            }
        }
        proof {
            Self::lemma_wf_after_pool_update(s0, *self, cur.0);
        }
    }

    /// Take every queued task tag of the running thread, leaving its
    /// executor empty: the caller runs them and then calls `exit`, as
    /// `perform_tasks` never returns.
    pub fn take_tasks(&mut self, index: ProcessorIndex) -> (r: Vec<usize>)
        requires
            old(self).wf(),
            index.0 < old(self).locals@.len(),
        ensures
            final(self).wf(),
            ({
                let cur = old(self).locals@[index.0 as int].current;
                let t = old(self).pool.spec_thread(cur.0);
                let tn = final(self).pool.spec_thread(cur.0);
                &&& Self::pool_eq_except(*old(self), *final(self), cur.0)
                &&& final(self).locals@ == old(self).locals@
                &&& r@ == (match t.executor {
                    Some(q) => q@,
                    None => Seq::<usize>::empty(),
                })
                &&& (tn.executor matches Some(q2) && q2@ == Seq::<usize>::empty())
                &&& tn == (RawThread { executor: tn.executor, ..t })
            }),
    {
        let cur = self.locals[index.0].current;
        proof {
            assert(old(self).local_ok(index.0 as int));
        }
        let ghost s0 = *self;
        let out: Vec<usize>;
        {
            let t = self.pool.get_mut(cur);
            let mut q2: Option<Vec<usize>> = Some(Vec::new());
            core::mem::swap(&mut t.executor, &mut q2);
            out = match q2 {
                Some(q) => q,
                None => Vec::new(),
            };
        }
        proof {
            Self::lemma_wf_after_pool_update(s0, *self, cur.0);
        }
        out
    }

    /// A thread on some run-queue always carries the `QUEUED` flag, and is a
    /// live member of the pool.
    pub proof fn lemma_queued_thread_is_marked(self, h: usize)
        requires
            self.wf(),
            self.in_some_queue(h),
        ensures
            self.pool.spec_contains(h),
            self.pool.spec_thread(h).attribute.has(ThreadAttributes::Queued),
    {
        if self.queue_contents(Priority::Realtime).contains(h) {
            let k = choose|k: int|
                0 <= k < self.queue_contents(Priority::Realtime).len() && self.queue_contents(
                    Priority::Realtime,
                )[k] == h;
            assert(self.queued_ok(self.queue_contents(Priority::Realtime)[k], Priority::Realtime));
        } else if self.queue_contents(Priority::High).contains(h) {
            let k = choose|k: int|
                0 <= k < self.queue_contents(Priority::High).len() && self.queue_contents(
                    Priority::High,
                )[k] == h;
            assert(self.queued_ok(self.queue_contents(Priority::High)[k], Priority::High));
        } else if self.queue_contents(Priority::Normal).contains(h) {
            let k = choose|k: int|
                0 <= k < self.queue_contents(Priority::Normal).len() && self.queue_contents(
                    Priority::Normal,
                )[k] == h;
            assert(self.queued_ok(self.queue_contents(Priority::Normal)[k], Priority::Normal));
        } else {
            let k = choose|k: int|
                0 <= k < self.queue_contents(Priority::Low).len() && self.queue_contents(
                    Priority::Low,
                )[k] == h;
            assert(self.queued_ok(self.queue_contents(Priority::Low)[k], Priority::Low));
        }
    }

    /// An idle-priority thread is never on a global run-queue: it belongs to
    /// exactly one CPU and runs only when that CPU has nothing else.
    pub proof fn lemma_idle_thread_never_queued(self, h: usize)
        requires
            self.wf(),
            self.pool.spec_contains(h),
            self.pool.spec_thread(h).priority == Priority::Idle,
        ensures
            !self.in_some_queue(h),
    {
        if self.queue_contents(Priority::Realtime).contains(h) {
            let k = choose|k: int|
                0 <= k < self.queue_contents(Priority::Realtime).len() && self.queue_contents(
                    Priority::Realtime,
                )[k] == h;
            assert(self.queued_ok(self.queue_contents(Priority::Realtime)[k], Priority::Realtime));
        }
        if self.queue_contents(Priority::High).contains(h) {
            let k = choose|k: int|
                0 <= k < self.queue_contents(Priority::High).len() && self.queue_contents(
                    Priority::High,
                )[k] == h;
            assert(self.queued_ok(self.queue_contents(Priority::High)[k], Priority::High));
        }
        if self.queue_contents(Priority::Normal).contains(h) {
            let k = choose|k: int|
                0 <= k < self.queue_contents(Priority::Normal).len() && self.queue_contents(
                    Priority::Normal,
                )[k] == h;
            assert(self.queued_ok(self.queue_contents(Priority::Normal)[k], Priority::Normal));
        }
        if self.queue_contents(Priority::Low).contains(h) {
            let k = choose|k: int|
                0 <= k < self.queue_contents(Priority::Low).len() && self.queue_contents(
                    Priority::Low,
                )[k] == h;
            assert(self.queued_ok(self.queue_contents(Priority::Low)[k], Priority::Low));
        }
    }

    /// Each CPU runs exactly one thread, and no thread runs on two CPUs at
    /// once: two different CPUs' current threads are always distinct. (Only
    /// the CPU that holds a thread as current touches its context, so the
    /// context is never written from two sides.)
    pub proof fn lemma_one_running_thread_per_cpu(self, i: int, j: int)
        requires
            self.wf(),
            0 <= i < self.locals@.len(),
            0 <= j < self.locals@.len(),
            i != j,
        ensures
            self.locals@[i].current != self.locals@[j].current,
    {
        assert(self.local_owns(i, self.locals@[i].current.0));
        assert(self.local_owns(j, self.locals@[j].current.0));
    }

    /// No lost wakeups: when a wake has marked the outgoing thread `AWAKE`
    /// by the time its CPU switches away — whether the wake landed before or
    /// after the thread committed to sleeping — the switch's retirement puts
    /// the thread straight back on the run-queue of its band, Ready, instead
    /// of parking it.
    pub proof fn lemma_no_lost_wakeup(
        pre: Scheduler,
        post: Scheduler,
        index: ProcessorIndex,
        now: TimeSpec,
        t0: RawThread,
        asleep: bool,
    )
        requires
            index.0 < pre.locals@.len(),
            t0.priority != Priority::Idle,
            Self::switch_outcome_at(pre, post, index, now, t0, false, true, asleep),
            ({
                let picked = Self::spec_picked_next(pre, index);
                let nexth = match picked {
                    Some(h) => h,
                    None => pre.locals@[index.0 as int].idle.0,
                };
                nexth != pre.locals@[index.0 as int].current.0
            }),
        ensures
            ({
                let cur = pre.locals@[index.0 as int].current;
                &&& post.pool.spec_contains(cur.0)
                &&& post.pool.spec_thread(cur.0).attribute.has(ThreadAttributes::Queued)
                &&& !post.pool.spec_thread(cur.0).attribute.has(ThreadAttributes::Asleep)
                &&& post.queue_contents(t0.priority).contains(cur.0)
            }),
    {
        let cur = pre.locals@[index.0 as int].current;
        let q = post.queue_contents(t0.priority);
        assert(q == Self::mid_queue(pre, index, t0.priority).push(cur.0));
        assert(q[q.len() - 1] == cur.0);
    }

    /// Under `Saving`, only CPU 0 dispatches non-idle work: a context switch
    /// on any other CPU lands on that CPU's idle thread. The same holds once
    /// the scheduler is frozen, on every CPU.
    pub proof fn lemma_saving_parks_other_cpus(pre: Scheduler, post: Scheduler, index: ProcessorIndex, now: TimeSpec)
        requires
            pre.wf(),
            index.0 < pre.locals@.len(),
            pre.is_frozen || (pre.state == SchedulerState::Saving && index.0 != 0),
            Self::switch_outcome(pre, post, index, now),
        ensures
            post.locals@[index.0 as int].current == pre.locals@[index.0 as int].idle,
    {
        assert(pre.dispatch_gated(index));
        assert(Self::spec_picked_next(pre, index) is None);
    }

    /// One thread's row in the statistics listing: process tag, priority
    /// digit, state letter, load as tens-dot-units of a percent, running
    /// time, and the thread's name (or its handle in parentheses when it has
    /// none or its name buffer is malformed).
    pub open spec fn spec_stat_line(t: RawThread) -> Seq<u8> {
        Self::spec_stat_head(t) + Self::spec_stat_time(t) + Self::spec_stat_name(t) + seq![10u8]
    }

    /// The fixed head of a row: process tag, priority digit, state letter
    /// and load.
    pub open spec fn spec_stat_head(t: RawThread) -> Seq<u8> {
        let load = if t.load <= 999 {
            t.load as int
        } else {
            999
        };
        crate::strbuf::spec_decimal_pad(t.pid.0 as int, 3, 32) + seq![32u8]
            + crate::strbuf::spec_decimal(t.priority.spec_as_index() as int) + seq![32u8] + seq![
            (t.attribute.spec_to_char() as u8),
        ] + seq![32u8] + crate::strbuf::spec_decimal_pad(load / 10, 2, 32) + seq![46u8]
            + crate::strbuf::spec_decimal(load % 10)
    }

    /// The running-time column: hours, minutes and seconds once an hour has
    /// accumulated, minutes, seconds and centiseconds before that.
    pub open spec fn spec_stat_time(t: RawThread) -> Seq<u8> {
        let time = t.cpu_time as int / 10_000;
        if time / 360000 > 0 {
            seq![32u8] + crate::strbuf::spec_decimal_pad(time / 360000, 2, 48) + seq![58u8]
                + crate::strbuf::spec_decimal_pad(time / 6000 % 60, 2, 48) + seq![58u8]
                + crate::strbuf::spec_decimal_pad(time / 100 % 60, 2, 48)
        } else {
            seq![32u8] + crate::strbuf::spec_decimal_pad(time / 6000 % 60, 2, 48) + seq![58u8]
                + crate::strbuf::spec_decimal_pad(time / 100 % 60, 2, 48) + seq![46u8]
                + crate::strbuf::spec_decimal_pad(time % 100, 2, 48)
        }
    }

    /// The name column: the stored name, or the handle in parentheses when
    /// the thread has no name or its name buffer is malformed.
    pub open spec fn spec_stat_name(t: RawThread) -> Seq<u8> {
        if t.name@.len() == 32 && 0 < t.name@[0] < 32 {
            seq![32u8] + t.name@.subrange(1, t.name@[0] + 1)
        } else {
            seq![32u8, 40u8] + crate::strbuf::spec_decimal(t.handle.0 as int) + seq![41u8]
        }
    }

    /// The rows of every live thread from slot `from` on, in handle order,
    /// idle threads skipped when excluded.
    pub open spec fn spec_stat_lines(
        data: Seq<Option<RawThread>>,
        from: int,
        exclude_idle: bool,
    ) -> Seq<u8>
        decreases data.len() - from,
    {
        if from < 1 || from >= data.len() {
            Seq::empty()
        } else {
            (match data[from] {
                None => Seq::<u8>::empty(),
                Some(t) => if exclude_idle && t.priority == Priority::Idle {
                    Seq::<u8>::empty()
                } else {
                    Self::spec_stat_line(t)
                },
            }) + Self::spec_stat_lines(data, from + 1, exclude_idle)
        }
    }

    /// Append one thread's row to `sb`.
    fn append_stat_line(sb: &mut crate::strbuf::StringBuffer, t: &RawThread)
        ensures
            final(sb).view() == old(sb).view() + Self::spec_stat_line(*t),
    {
        let ghost pre = sb.view();
        Self::append_stat_head(sb, t);
        Self::append_stat_time(sb, t);
        Self::append_stat_name(sb, t);
        sb.push_byte(10);
        proof {
            assert(sb.view() =~= pre + Self::spec_stat_line(*t));
        }
    }

    /// Append the head columns of one row.
    #[verifier::rlimit(100)]
    #[verifier::spinoff_prover]
    fn append_stat_head(sb: &mut crate::strbuf::StringBuffer, t: &RawThread)
        ensures
            final(sb).view() == old(sb).view() + Self::spec_stat_head(*t),
    {
        let ghost pre = sb.view();
        let load: u32 = if t.load <= 999 {
            t.load
        } else {
            999
        };
        sb.append_decimal_pad(t.pid.0, 3, 32);
        sb.push_byte(32);
        sb.append_decimal(t.priority.as_index());
        sb.push_byte(32);
        sb.push_byte(t.attribute.to_char() as u8);
        sb.push_byte(32);
        sb.append_decimal_pad((load / 10) as usize, 2, 32);
        sb.push_byte(46);
        sb.append_decimal((load % 10) as usize);
        proof {
            assert(sb.view() =~= pre + Self::spec_stat_head(*t));
        }
    }

    /// Append the running-time column of one row.
    #[verifier::rlimit(100)]
    #[verifier::spinoff_prover]
    fn append_stat_time(sb: &mut crate::strbuf::StringBuffer, t: &RawThread)
        ensures
            final(sb).view() == old(sb).view() + Self::spec_stat_time(*t),
    {
        let ghost pre = sb.view();
        let time = t.cpu_time / 10_000;
        let hour = time / 360000;
        let minute = time / 6000 % 60;
        let sec = time / 100 % 60;
        let dsec = time % 100;
        if hour > 0 {
            sb.push_byte(32);
            sb.append_decimal_pad(hour, 2, 48);
            sb.push_byte(58);
            sb.append_decimal_pad(minute, 2, 48);
            sb.push_byte(58);
            sb.append_decimal_pad(sec, 2, 48);
        } else {
            sb.push_byte(32);
            sb.append_decimal_pad(minute, 2, 48);
            sb.push_byte(58);
            sb.append_decimal_pad(sec, 2, 48);
            sb.push_byte(46);
            sb.append_decimal_pad(dsec, 2, 48);
        }
        proof {
            assert(sb.view() =~= pre + Self::spec_stat_time(*t));
        }
    }

    /// Append the name column of one row.
    #[verifier::rlimit(100)]
    #[verifier::spinoff_prover]
    fn append_stat_name(sb: &mut crate::strbuf::StringBuffer, t: &RawThread)
        ensures
            final(sb).view() == old(sb).view() + Self::spec_stat_name(*t),
    {
        let ghost pre = sb.view();
        let mut named = false;
        if t.name.len() == 32 {
            let nlen = t.name[0];
            if 0 < nlen && nlen < 32 {
                named = true;
                sb.push_byte(32);
                let mut i: usize = 1;
                let ghost pre_name = sb.view();
                while i < nlen as usize + 1
                    invariant
                        t.name@.len() == 32,
                        nlen == t.name@[0],
                        0 < nlen < 32,
                        1 <= i <= nlen + 1,
                        sb.view() == pre_name + t.name@.subrange(1, i as int),
                    decreases nlen + 1 - i,
                {
                    let b = t.name[i];
                    sb.push_byte(b);
                    proof {
                        assert(pre_name + t.name@.subrange(1, i + 1) =~= (pre_name
                            + t.name@.subrange(1, i as int)).push(b));
                    }
                    i = i + 1;
                }
                proof {
                    assert(sb.view() =~= pre + Self::spec_stat_name(*t));
                }
            }
        }
        if !named {
            sb.push_byte(32);
            sb.push_byte(40);
            sb.append_decimal(t.handle.0);
            sb.push_byte(41);
            proof {
                assert(sb.view() =~= pre + Self::spec_stat_name(*t));
            }
        }
    }

    /// Print the thread listing into `sb`: a header, then one row per live
    /// thread in handle order, with idle threads skipped on request. The
    /// output is specified byte for byte.
    #[verifier::rlimit(100)]
    #[verifier::spinoff_prover]
    pub fn print_statistics(&self, sb: &mut crate::strbuf::StringBuffer, exclude_idle: bool)
        requires
            self.wf(),
        ensures
            final(sb).view() == ("PID PRI %CPU TIME     NAME\n").spec_bytes()
                + Self::spec_stat_lines(self.pool.data@, 1, exclude_idle),
    {
        sb.clear();
        sb.append_str("PID PRI %CPU TIME     NAME\n");
        let len = self.pool.next_handle();
        let mut h: usize = 1;
        while h < len
            invariant
                self.wf(),
                1 <= h <= len,
                len == self.pool.data@.len(),
                ("PID PRI %CPU TIME     NAME\n").spec_bytes() + Self::spec_stat_lines(
                    self.pool.data@,
                    1,
                    exclude_idle,
                ) == sb.view() + Self::spec_stat_lines(self.pool.data@, h as int, exclude_idle),
            decreases len - h,
        {
            let handle = ThreadHandle(h);
            match self.pool.get(handle) {
                None => {
                    proof {
                        assert(Self::spec_stat_lines(self.pool.data@, h as int, exclude_idle)
                            =~= Self::spec_stat_lines(self.pool.data@, h + 1, exclude_idle));
                    }
                },
                Some(t) => {
                    if exclude_idle && !t.priority.is_useful() {
                        proof {
                            assert(Self::spec_stat_lines(self.pool.data@, h as int, exclude_idle)
                                =~= Self::spec_stat_lines(self.pool.data@, h + 1, exclude_idle));
                        }
                    } else {
                        let ghost pre = sb.view();
                        Self::append_stat_line(sb, t);
                        proof {
                            assert(Self::spec_stat_lines(self.pool.data@, h as int, exclude_idle)
                                =~= Self::spec_stat_line(*t) + Self::spec_stat_lines(
                                self.pool.data@,
                                h + 1,
                                exclude_idle,
                            ));
                            assert(sb.view() + Self::spec_stat_lines(
                                self.pool.data@,
                                h + 1,
                                exclude_idle,
                            ) =~= pre + Self::spec_stat_lines(
                                self.pool.data@,
                                h as int,
                                exclude_idle,
                            ));
                        }
                    }
                },
            }
            h = h + 1;
        }
        proof {
            assert(Self::spec_stat_lines(self.pool.data@, len as int, exclude_idle) =~= Seq::<
                u8,
            >::empty());
            assert(("PID PRI %CPU TIME     NAME\n").spec_bytes() + Self::spec_stat_lines(
                self.pool.data@,
                1,
                exclude_idle,
            ) =~= sb.view());
        }
    }
}

} // verus!
