//! A preemptive, multi-queue, per-CPU thread scheduler for a multiprocessor
//! kernel, together with its timer subsystem and synchronization primitives.
//!
//! Threads are identified by stable non-zero handles; every live thread record
//! is owned by a pool keyed by handle. Four bounded run-queues (one per useful
//! priority band) feed per-CPU local schedulers; a single system-wide timer
//! queue fires one-shot sleeps and window timers. The dispatch policy, the
//! enqueue/retire discipline over the thread state flags, the quantum
//! accounting and the load measurement are all verified here; the machine
//! layer (context switches, interrupts, the clock) is the caller's.

pub mod flags;

pub mod system;

pub mod queue;

pub mod semaphore;

pub mod threads;

pub mod timer;

pub mod scheduler;

pub mod drawing;

pub mod font;

pub mod ringbuffer;

pub mod strbuf;

pub mod text;
