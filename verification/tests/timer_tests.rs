use myos::queue::{EventQueue, ThreadQueue};
use myos::scheduler::{Scheduler, SpawnOption};
use myos::semaphore::{Semaphore, SignallingObject};
use myos::system::{ProcessorCoreType, ProcessorIndex, System};
use myos::threads::{Priority, ThreadHandle};
use myos::timer::{TimeSpec, Timer, TimerEvent, TimerType, WindowHandle};

fn make_scheduler(ncpu: usize) -> Scheduler {
    let mut cores = Vec::new();
    for _ in 0..ncpu {
        cores.push(ProcessorCoreType::Main);
    }
    let mut s = Scheduler::new(System::new(cores));
    s.enable();
    s
}

const CPU0: ProcessorIndex = ProcessorIndex(0);

#[test]
fn timer_until_tracks_the_deadline() {
    let t = Timer::new(TimeSpec(100), TimeSpec(50));
    assert!(t.until(TimeSpec(100)));
    assert!(t.until(TimeSpec(149)));
    assert!(!t.until(TimeSpec(150)));
    assert!(!t.until(TimeSpec(151)));
    // The "just" timer is already expired at any instant.
    let j = Timer::just();
    assert!(j.is_just());
    assert!(!j.until(TimeSpec(0)));
}

#[test]
fn timer_event_encoding_round_trips() {
    let e1 = TimerEvent::one_shot(Timer::new(TimeSpec(5), TimeSpec(10)), ThreadHandle(3));
    assert_eq!(TimerEvent::decode(e1.encode()), Some(e1));
    let e2 = TimerEvent::window(WindowHandle(9), 42, Timer::new(TimeSpec(0), TimeSpec(7)));
    assert_eq!(TimerEvent::decode(e2.encode()), Some(e2));
    // An invalid kind decodes to nothing.
    assert_eq!(TimerEvent::decode((1, 2, 3, 4)), None);
}

#[test]
fn sleep_with_a_deadline_wakes_on_or_after_it() {
    let mut s = make_scheduler(1);
    let h = SpawnOption::with_priority(Priority::Normal)
        .spawn_f(&mut s, CPU0, "sleeper")
        .unwrap();
    s.switch_context(CPU0, TimeSpec(0));
    assert_eq!(s.current_thread(CPU0), Some(h));
    s.sleep_timed(CPU0, TimeSpec(0), TimeSpec(100)).unwrap();
    // Asleep: nothing to run.
    assert_eq!(s.next(CPU0), None);
    // Before the deadline nothing fires and the thread stays asleep.
    let fired = s.process_timer_events(TimeSpec(50));
    assert_eq!(fired.len(), 0);
    assert_eq!(s.next(CPU0), None);
    // On the deadline the one-shot fires exactly once and wakes the thread.
    let fired = s.process_timer_events(TimeSpec(100));
    assert_eq!(fired.len(), 1);
    assert_eq!(fired[0].timer.deadline, TimeSpec(100));
    assert_eq!(s.next(CPU0), Some(h));
    // Never a second firing of the same event.
    let fired = s.process_timer_events(TimeSpec(200));
    assert_eq!(fired.len(), 0);
}

#[test]
fn zero_duration_sleep_waits_for_an_explicit_wake() {
    let mut s = make_scheduler(1);
    let h = SpawnOption::with_priority(Priority::Normal)
        .spawn_f(&mut s, CPU0, "patient")
        .unwrap();
    s.switch_context(CPU0, TimeSpec(10));
    assert_eq!(s.current_thread(CPU0), Some(h));
    // A zero duration degenerates to an unconditional sleep: no timer is
    // scheduled, and only an explicit wake brings the thread back.
    s.sleep_timed(CPU0, TimeSpec(10), TimeSpec(0)).unwrap();
    assert_eq!(s.next(CPU0), None);
    let fired = s.process_timer_events(TimeSpec(10_000));
    assert_eq!(fired.len(), 0);
    assert_eq!(s.next(CPU0), None);
    s.wake(h).unwrap();
    assert_eq!(s.next(CPU0), Some(h));
}

#[test]
fn window_timer_events_come_back_to_be_posted() {
    let mut s = make_scheduler(1);
    let e = TimerEvent::window(WindowHandle(4), 11, Timer::new(TimeSpec(0), TimeSpec(20)));
    s.schedule_timer(e).unwrap();
    let fired = s.process_timer_events(TimeSpec(30));
    assert_eq!(fired.len(), 1);
    assert_eq!(fired[0].timer_type, TimerType::Window(WindowHandle(4), 11));
}

#[test]
fn events_fire_in_deadline_order() {
    let mut s = make_scheduler(1);
    let late = TimerEvent::window(WindowHandle(1), 1, Timer::new(TimeSpec(0), TimeSpec(90)));
    let early = TimerEvent::window(WindowHandle(1), 2, Timer::new(TimeSpec(0), TimeSpec(30)));
    let mid = TimerEvent::window(WindowHandle(1), 3, Timer::new(TimeSpec(0), TimeSpec(60)));
    s.schedule_timer(late).unwrap();
    s.schedule_timer(early).unwrap();
    s.schedule_timer(mid).unwrap();
    let fired = s.process_timer_events(TimeSpec(100));
    assert_eq!(fired.len(), 3);
    assert_eq!(fired[0].timer_type, TimerType::Window(WindowHandle(1), 2));
    assert_eq!(fired[1].timer_type, TimerType::Window(WindowHandle(1), 3));
    assert_eq!(fired[2].timer_type, TimerType::Window(WindowHandle(1), 1));
}

#[test]
fn full_timer_queue_hands_the_event_back() {
    let mut s = make_scheduler(1);
    // The ingress queue holds one hundred events.
    for i in 0..100 {
        let e = TimerEvent::window(WindowHandle(1), i, Timer::new(TimeSpec(0), TimeSpec(1000)));
        assert_eq!(s.schedule_timer(e), Ok(()));
    }
    let extra = TimerEvent::window(WindowHandle(2), 777, Timer::new(TimeSpec(0), TimeSpec(1)));
    assert_eq!(s.schedule_timer(extra), Err(extra));
    // The pending set is unchanged: all hundred fire, the rejected one never
    // does.
    let fired = s.process_timer_events(TimeSpec(5000));
    assert_eq!(fired.len(), 100);
    assert!(fired.iter().all(|e| e.timer_type != extra.timer_type));
}

#[test]
fn thread_queue_is_fifo_and_bounded() {
    let mut q = ThreadQueue::with_capacity(2);
    assert_eq!(q.len(), 0);
    assert_eq!(q.enqueue(11), Ok(()));
    assert_eq!(q.enqueue(22), Ok(()));
    assert_eq!(q.enqueue(33), Err(()));
    assert_eq!(q.len(), 2);
    assert_eq!(q.dequeue(), Some(11));
    assert_eq!(q.dequeue(), Some(22));
    assert_eq!(q.dequeue(), None);
    assert_eq!(q.capacity_exec(), 2);
}

#[test]
fn event_queue_is_fifo_and_bounded() {
    let mut q = EventQueue::with_capacity(2);
    assert_eq!(q.enqueue((1, 0, 2, 0)), Ok(()));
    assert_eq!(q.enqueue((3, 1, 4, 5)), Ok(()));
    assert_eq!(q.enqueue((6, 0, 7, 0)), Err((6, 0, 7, 0)));
    assert_eq!(q.dequeue(), Some((1, 0, 2, 0)));
    assert_eq!(q.dequeue(), Some((3, 1, 4, 5)));
    assert_eq!(q.dequeue(), None);
}

#[test]
fn semaphore_counts_and_wakes_in_order() {
    let mut sem = Semaphore::new(0);
    assert!(!sem.wait(ThreadHandle(1)));
    assert!(!sem.wait(ThreadHandle(2)));
    assert_eq!(sem.signal(), Some(ThreadHandle(1)));
    assert_eq!(sem.signal(), Some(ThreadHandle(2)));
    assert_eq!(sem.signal(), None);
    // The banked unit satisfies the next wait without blocking.
    assert!(sem.wait(ThreadHandle(3)));
}

#[test]
fn signalling_object_parks_one_handle() {
    let mut obj = SignallingObject::empty();
    assert_eq!(obj.load(), None);
    assert_eq!(obj.set(ThreadHandle(5)), Ok(()));
    assert_eq!(obj.set(ThreadHandle(6)), Err(()));
    assert_eq!(obj.load(), Some(ThreadHandle(5)));
    assert_eq!(obj.signal(), Some(ThreadHandle(5)));
    assert_eq!(obj.signal(), None);
}

#[test]
fn wait_for_parks_until_signalled() {
    let mut s = make_scheduler(1);
    let h = SpawnOption::with_priority(Priority::Normal)
        .spawn_f(&mut s, CPU0, "parked")
        .unwrap();
    s.switch_context(CPU0, TimeSpec(0));
    assert_eq!(s.current_thread(CPU0), Some(h));
    let mut obj = SignallingObject::empty();
    s.wait_for(&mut obj, CPU0, TimeSpec(0), TimeSpec(0)).unwrap();
    assert_eq!(s.next(CPU0), None);
    // The signal says who was parked; waking it makes it ready.
    let parked = obj.signal().unwrap();
    assert_eq!(parked, h);
    s.wake(parked).unwrap();
    assert_eq!(s.next(CPU0), Some(h));
}
