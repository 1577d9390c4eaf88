use myos::flags::{AtomicBitflags, ThreadAttributes};
use myos::scheduler::{Scheduler, SchedulerState, SpawnOption};
use myos::system::{ProcessorCoreType, ProcessorIndex, System};
use myos::threads::{Priority, ThreadHandle};
use myos::timer::TimeSpec;

fn make_system(ncpu: usize) -> System {
    let mut cores = Vec::new();
    for _ in 0..ncpu {
        cores.push(ProcessorCoreType::Main);
    }
    System::new(cores)
}

fn make_scheduler(ncpu: usize) -> Scheduler {
    let mut s = Scheduler::new(make_system(ncpu));
    s.enable();
    s
}

fn spawn(s: &mut Scheduler, pri: Priority, name: &str) -> ThreadHandle {
    SpawnOption::with_priority(pri)
        .spawn_f(s, ProcessorIndex(0), name)
        .expect("spawn failed")
}

const CPU0: ProcessorIndex = ProcessorIndex(0);
const CPU1: ProcessorIndex = ProcessorIndex(1);

#[test]
fn spawn_then_dispatch_returns_the_thread() {
    let mut s = make_scheduler(1);
    let h = spawn(&mut s, Priority::Normal, "worker");
    // Through the real lock-free queue: the pushed handle comes back out.
    assert_eq!(s.next(CPU0), Some(h));
    assert_eq!(s.next(CPU0), None);
}

#[test]
fn idle_priority_thread_is_never_enqueued() {
    let mut s = make_scheduler(1);
    let _h = spawn(&mut s, Priority::Idle, "extra idle");
    assert_eq!(s.next(CPU0), None);
}

#[test]
fn dispatch_order_follows_priority_bands() {
    let mut s = make_scheduler(1);
    let lo = spawn(&mut s, Priority::Low, "lo");
    let no = spawn(&mut s, Priority::Normal, "no");
    let hi = spawn(&mut s, Priority::High, "hi");
    let rt = spawn(&mut s, Priority::Realtime, "rt");
    assert_eq!(s.next(CPU0), Some(rt));
    assert_eq!(s.next(CPU0), Some(hi));
    assert_eq!(s.next(CPU0), Some(no));
    assert_eq!(s.next(CPU0), Some(lo));
    assert_eq!(s.next(CPU0), None);
}

#[test]
fn frozen_scheduler_dispatches_nothing() {
    let mut s = make_scheduler(1);
    let _h = spawn(&mut s, Priority::Normal, "worker");
    s.freeze(false).unwrap();
    assert_eq!(s.next(CPU0), None);
}

#[test]
fn saving_state_parks_every_cpu_but_the_first() {
    let mut s = make_scheduler(2);
    let h = spawn(&mut s, Priority::Normal, "worker");
    // No measured load: one statistics pass drops the state to Saving.
    s.update_statistics(1_000_000);
    assert_eq!(s.current_state(), SchedulerState::Saving);
    assert_eq!(s.next(CPU1), None);
    assert_eq!(s.next(CPU0), Some(h));
}

#[test]
fn statistics_thresholds_choose_the_state() {
    // Saving below 666 per mille in total.
    let mut s = make_scheduler(1);
    let h = spawn(&mut s, Priority::Normal, "quiet");
    if let Some(t) = &mut s.pool.data[h.0] {
        t.load0 = 400_000;
    }
    s.update_statistics(1_000_000);
    assert_eq!(s.current_state(), SchedulerState::Saving);
    assert_eq!(s.usage_total(), 400);

    // Running between the thresholds.
    if let Some(t) = &mut s.pool.data[h.0] {
        t.load0 = 700_000;
    }
    s.update_statistics(1_000_000);
    assert_eq!(s.current_state(), SchedulerState::Running);
    assert_eq!(s.usage_total(), 700);

    // Full throttle above 750 per mille per performance core.
    if let Some(t) = &mut s.pool.data[h.0] {
        t.load0 = 800_000;
    }
    s.update_statistics(1_000_000);
    assert_eq!(s.current_state(), SchedulerState::FullThrottle);
    assert_eq!(s.usage_total(), 800);
    assert_eq!(s.usage_per_cpu(), 800);
}

#[test]
fn statistics_load_is_clamped_to_one_cpu() {
    let mut s = make_scheduler(1);
    let h = spawn(&mut s, Priority::Normal, "busy");
    if let Some(t) = &mut s.pool.data[h.0] {
        t.load0 = 5_000_000;
    }
    s.update_statistics(1_000_000);
    assert_eq!(s.usage_total(), 1000);
    if let Some(t) = &s.pool.data[h.0] {
        assert_eq!(t.load, 1000);
        assert_eq!(t.load0, 0);
    } else {
        panic!("thread vanished");
    }
}

#[test]
fn realtime_thread_is_not_preempted_by_quantum_expiry() {
    let mut s = make_scheduler(1);
    let rt = spawn(&mut s, Priority::Realtime, "rt");
    s.switch_context(CPU0, TimeSpec(0));
    assert_eq!(s.current_thread(CPU0), Some(rt));
    for tick in 0..100 {
        s.reschedule(CPU0, TimeSpec(tick + 1));
        assert_eq!(s.current_thread(CPU0), Some(rt));
    }
}

#[test]
fn normal_thread_is_preempted_when_its_quantum_expires() {
    let mut s = make_scheduler(1);
    let idle = s.current_thread(CPU0).unwrap();
    let h = spawn(&mut s, Priority::Normal, "worker");
    s.switch_context(CPU0, TimeSpec(0));
    assert_eq!(s.current_thread(CPU0), Some(h));
    // The Normal band has a ten-tick quantum: nine ticks keep it running.
    for tick in 0..9 {
        s.reschedule(CPU0, TimeSpec(tick + 1));
        assert_eq!(s.current_thread(CPU0), Some(h));
    }
    // The tenth tick expires the quantum; with nothing else to run the CPU
    // falls back to idle, and the thread is ready on its queue again.
    s.reschedule(CPU0, TimeSpec(10));
    assert_eq!(s.current_thread(CPU0), Some(idle));
    assert_eq!(s.next(CPU0), Some(h));
}

#[test]
fn sleeping_thread_leaves_the_queues_until_woken() {
    let mut s = make_scheduler(1);
    let h = spawn(&mut s, Priority::Normal, "sleeper");
    s.switch_context(CPU0, TimeSpec(0));
    assert_eq!(s.current_thread(CPU0), Some(h));
    s.sleep(CPU0, TimeSpec(1));
    // Asleep: off-queue, nothing to dispatch.
    assert_eq!(s.next(CPU0), None);
    // A wake makes it ready again.
    s.wake(h).unwrap();
    assert_eq!(s.next(CPU0), Some(h));
}

#[test]
fn wake_racing_a_sleep_is_not_lost() {
    let mut s = make_scheduler(1);
    let h = spawn(&mut s, Priority::Normal, "sleeper");
    s.switch_context(CPU0, TimeSpec(0));
    assert_eq!(s.current_thread(CPU0), Some(h));
    // The wake lands while the thread is still running, before its sleep
    // commits: the AWAKE mark makes the retirement re-queue it.
    s.wake(h).unwrap();
    s.sleep(CPU0, TimeSpec(1));
    assert_eq!(s.next(CPU0), Some(h));
}

#[test]
fn exited_thread_is_removed_from_the_pool_exactly_once() {
    let mut s = make_scheduler(1);
    let h = spawn(&mut s, Priority::Normal, "doomed");
    s.switch_context(CPU0, TimeSpec(0));
    assert_eq!(s.current_thread(CPU0), Some(h));
    let hook = s.exit(CPU0, TimeSpec(1));
    assert_eq!(hook, None);
    assert!(!s.pool.contains(h));
    // The handle never returns: a new thread draws a fresh one.
    let h2 = spawn(&mut s, Priority::Normal, "next");
    assert_ne!(h2, h);
    assert!(h2.as_usize() > h.as_usize());
}

#[test]
fn flag_set_then_clear_restores_a_clear_flag() {
    let mut flags = AtomicBitflags::empty();
    flags.insert(ThreadAttributes::Queued);
    // ASLEEP starts clear; set-then-clear leaves it clear and every other
    // flag untouched.
    let was = flags.test_and_set(ThreadAttributes::Asleep);
    assert!(!was);
    let was = flags.test_and_clear(ThreadAttributes::Asleep);
    assert!(was);
    assert!(!flags.contains(ThreadAttributes::Asleep));
    assert!(flags.contains(ThreadAttributes::Queued));
    assert!(!flags.contains(ThreadAttributes::Awake));
    assert!(!flags.contains(ThreadAttributes::Zombie));
}

#[test]
fn full_run_queue_rejects_a_spawn_and_keeps_its_contents() {
    let mut s = make_scheduler(1);
    // The Realtime band holds 64 entries.
    let mut handles = Vec::new();
    for i in 0..64 {
        let name = format!("rt{}", i);
        handles.push(spawn(&mut s, Priority::Realtime, &name));
    }
    let rejected = SpawnOption::with_priority(Priority::Realtime).spawn_f(&mut s, CPU0, "extra");
    assert_eq!(rejected, None);
    // The queue still hands the earlier threads out, in order.
    for h in handles {
        assert_eq!(s.next(CPU0), Some(h));
    }
    assert_eq!(s.next(CPU0), None);
}

#[test]
fn join_semaphore_wakes_the_first_joiner() {
    let mut s = make_scheduler(1);
    let worker = spawn(&mut s, Priority::Normal, "worker");
    let waiter = spawn(&mut s, Priority::Normal, "waiter");
    // The waiter runs first and joins the worker: it blocks.
    s.switch_context(CPU0, TimeSpec(0));
    assert_eq!(s.current_thread(CPU0), Some(worker));
    s.yield_thread(CPU0, TimeSpec(1));
    assert_eq!(s.current_thread(CPU0), Some(waiter));
    s.join(worker, CPU0, TimeSpec(2));
    // The worker runs and exits: the join semaphore wakes the waiter, and
    // the switch inside exit dispatches it at once.
    assert_eq!(s.current_thread(CPU0), Some(worker));
    let _ = s.exit(CPU0, TimeSpec(3));
    assert_eq!(s.current_thread(CPU0), Some(waiter));
}

#[test]
fn spawned_idle_thread_only_joins_the_pool() {
    let mut s = make_scheduler(1);
    let h = spawn(&mut s, Priority::Idle, "spare");
    assert!(s.pool.contains(h));
    assert_eq!(s.next(CPU0), None);
}

#[test]
fn raise_pid_assigns_fresh_process_tags() {
    let mut s = make_scheduler(1);
    let a = SpawnOption::new().spawn(&mut s, CPU0, "one").unwrap();
    let b = SpawnOption::new().spawn(&mut s, CPU0, "two").unwrap();
    let pa = s.pool.data[a.0].as_ref().unwrap().pid;
    let pb = s.pool.data[b.0].as_ref().unwrap().pid;
    assert_ne!(pa, pb);
}

#[test]
fn idle_statistics_report_one_entry_per_cpu() {
    let mut s = make_scheduler(3);
    let _h = spawn(&mut s, Priority::Normal, "worker");
    let mut loads = Vec::new();
    s.get_idle_statistics(&mut loads);
    assert_eq!(loads, vec![0u32, 0, 0]);
}

#[test]
fn async_task_tags_queue_on_the_running_thread() {
    let mut s = make_scheduler(1);
    let h = spawn(&mut s, Priority::Normal, "host");
    s.switch_context(CPU0, TimeSpec(0));
    assert_eq!(s.current_thread(CPU0), Some(h));
    s.spawn_async(CPU0, 7);
    s.spawn_async(CPU0, 8);
    assert_eq!(s.take_tasks(CPU0), vec![7, 8]);
    assert_eq!(s.take_tasks(CPU0), Vec::<usize>::new());
}

#[test]
fn context_switch_accounts_running_time() {
    let mut s = make_scheduler(1);
    let h = spawn(&mut s, Priority::Normal, "timed");
    s.switch_context(CPU0, TimeSpec(100));
    assert_eq!(s.current_thread(CPU0), Some(h));
    s.yield_thread(CPU0, TimeSpec(160));
    let t = s.pool.data[h.0].as_ref().unwrap();
    assert_eq!(t.cpu_time, 60);
    assert_eq!(t.load0, 60);
}

#[test]
fn two_cpus_never_run_the_same_thread() {
    let mut s = make_scheduler(2);
    let a = spawn(&mut s, Priority::Normal, "a");
    let b = spawn(&mut s, Priority::Normal, "b");
    s.switch_context(CPU0, TimeSpec(0));
    s.switch_context(CPU1, TimeSpec(0));
    let c0 = s.current_thread(CPU0).unwrap();
    let c1 = s.current_thread(CPU1).unwrap();
    assert_ne!(c0, c1);
    assert_eq!(c0, a);
    assert_eq!(c1, b);
}

#[test]
fn exhausted_process_counter_fails_the_spawn() {
    let mut s = make_scheduler(1);
    s.next_pid = usize::MAX;
    let r = SpawnOption::new().spawn(&mut s, CPU0, "late");
    assert_eq!(r, None);
    // A spawn that stays in the caller's process group still works.
    let r = SpawnOption::with_priority(Priority::Normal).spawn_f(&mut s, CPU0, "ok");
    assert!(r.is_some());
}

#[test]
fn exit_hands_back_the_personality_tag() {
    let mut s = make_scheduler(1);
    let h = SpawnOption::with_priority(Priority::Normal)
        .personality(42)
        .spawn_f(&mut s, CPU0, "hosted")
        .unwrap();
    s.switch_context(CPU0, TimeSpec(0));
    assert_eq!(s.current_thread(CPU0), Some(h));
    // The exit hook's tag comes back so the machine layer runs it.
    let hook = s.exit(CPU0, TimeSpec(1));
    assert_eq!(hook, Some(42));
}

#[test]
fn boot_creates_the_timer_and_system_threads() {
    let mut s = Scheduler::new(make_system(1));
    let (timer_thread, system_thread) = s.start(CPU0);
    let t = timer_thread.expect("timer thread missing");
    let f = system_thread.expect("system thread missing");
    assert_eq!(s.pool.data[t.0].as_ref().unwrap().priority, Priority::Realtime);
    assert_eq!(s.pool.data[f.0].as_ref().unwrap().priority, Priority::Normal);
    // The timer thread outranks the first system thread at dispatch.
    assert_eq!(s.next(CPU0), Some(t));
    assert_eq!(s.next(CPU0), Some(f));
}
