use mikanos_kernel::event::{Event, EventQueue, EVENT_QUEUE_SIZE};
use mikanos_kernel::timer::{next_timer, Timer, TimerManager, TASK_TIMEOUT_INTERVAL, TASK_TIMEOUT_MESSAGE};

fn drain(q: &mut EventQueue) -> Vec<Event> {
    let mut out = Vec::new();
    while let Some(e) = q.pop() {
        out.push(e);
    }
    out
}

#[test]
fn timeout_appears_only_when_deadline_is_reached() {
    let mut timers = TimerManager::new();
    let mut events = EventQueue::new(Event::Invalid);
    timers.add_timer(Timer::new(5, 10));
    timers.add_timer(Timer::new(3, 20));

    timers.tick(&mut events);
    assert_eq!(timers.get_tick(), 1);
    assert!(events.is_empty());
    timers.tick(&mut events);
    assert_eq!(timers.get_tick(), 2);
    assert!(events.is_empty());
    timers.tick(&mut events);
    assert_eq!(timers.get_tick(), 3);
    assert_eq!(drain(&mut events), vec![Event::Timeout(3, 20)]);

    timers.tick(&mut events);
    assert_eq!(timers.get_tick(), 4);
    assert!(events.is_empty());
    timers.tick(&mut events);
    assert_eq!(timers.get_tick(), 5);
    assert_eq!(drain(&mut events), vec![Event::Timeout(5, 10)]);
    assert!(timers.pending_timers().is_empty());
}

#[test]
fn task_switch_timer_sets_flag_and_rearms() {
    let mut timers = TimerManager::new();
    let mut events = EventQueue::new(Event::Invalid);
    timers.add_timer(Timer::new(4, TASK_TIMEOUT_MESSAGE));
    for _ in 0..3 {
        timers.tick(&mut events);
        assert!(!timers.check_task_timeout());
    }
    timers.tick(&mut events);
    assert_eq!(timers.get_tick(), 4);
    assert!(timers.check_task_timeout());
    assert_eq!(
        timers.pending_timers().to_vec(),
        vec![Timer::new(4 + TASK_TIMEOUT_INTERVAL, TASK_TIMEOUT_MESSAGE)]
    );
    assert!(events.is_empty());

    timers.reset_task_timeout();
    assert!(!timers.check_task_timeout());
    for _ in 0..TASK_TIMEOUT_INTERVAL - 1 {
        timers.tick(&mut events);
        assert!(!timers.check_task_timeout());
    }
    timers.tick(&mut events);
    assert!(timers.check_task_timeout());
    assert_eq!(
        timers.pending_timers().to_vec(),
        vec![Timer::new(4 + 2 * TASK_TIMEOUT_INTERVAL, TASK_TIMEOUT_MESSAGE)]
    );
    assert!(events.is_empty());
}

#[test]
fn timers_fire_in_deadline_order_one_tick_at_a_time() {
    let mut timers = TimerManager::new();
    let mut events = EventQueue::new(Event::Invalid);
    let deadlines = [7u64, 2, 9, 2, 5, 1, 7];
    for (i, d) in deadlines.iter().enumerate() {
        timers.add_timer(Timer::new(*d, i as i64));
    }
    let mut fired: Vec<(u64, u64)> = Vec::new();
    for _ in 0..10 {
        timers.tick(&mut events);
        let now = timers.get_tick();
        for e in drain(&mut events) {
            match e {
                Event::Timeout(d, _) => {
                    assert!(d <= now);
                    fired.push((d, now));
                }
                _ => panic!("unexpected event"),
            }
        }
        for t in timers.pending_timers() {
            assert!(t.deadline > now);
        }
    }
    let order: Vec<u64> = fired.iter().map(|(d, _)| *d).collect();
    assert_eq!(order, vec![1, 2, 2, 5, 7, 7, 9]);
    for (d, at) in fired {
        assert_eq!(d, at);
    }
}

#[test]
fn equal_deadlines_fire_in_the_order_they_were_added() {
    let mut timers = TimerManager::new();
    let mut events = EventQueue::new(Event::Invalid);
    timers.add_timer(Timer::new(2, 1));
    timers.add_timer(Timer::new(1, 0));
    timers.add_timer(Timer::new(2, 2));
    timers.add_timer(Timer::new(2, 3));
    assert_eq!(
        timers.pending_timers().to_vec(),
        vec![Timer::new(1, 0), Timer::new(2, 1), Timer::new(2, 2), Timer::new(2, 3)]
    );
    timers.tick(&mut events);
    timers.tick(&mut events);
    assert_eq!(
        drain(&mut events),
        vec![Event::Timeout(1, 0), Event::Timeout(2, 1), Event::Timeout(2, 2), Event::Timeout(2, 3)]
    );
}

#[test]
fn overdue_timer_fires_on_next_tick() {
    let mut timers = TimerManager::new();
    let mut events = EventQueue::new(Event::Invalid);
    timers.tick(&mut events);
    timers.tick(&mut events);
    timers.add_timer(Timer::new(0, 42));
    timers.tick(&mut events);
    assert_eq!(drain(&mut events), vec![Event::Timeout(0, 42)]);
}

#[test]
fn timeouts_beyond_queue_capacity_are_dropped_and_counted() {
    let mut timers = TimerManager::new();
    let mut events = EventQueue::new(Event::Invalid);
    for i in 0..(EVENT_QUEUE_SIZE as i64 + 3) {
        timers.add_timer(Timer::new(1, i));
    }
    timers.add_timer(Timer::new(1, TASK_TIMEOUT_MESSAGE));
    let dropped = timers.tick(&mut events);
    assert_eq!(dropped, 3);
    assert!(events.is_full());
    assert!(timers.check_task_timeout());
    let got = drain(&mut events);
    let want: Vec<Event> = (0..EVENT_QUEUE_SIZE as i64).map(|i| Event::Timeout(1, i)).collect();
    assert_eq!(got, want);
    assert_eq!(
        timers.pending_timers().to_vec(),
        vec![Timer::new(1 + TASK_TIMEOUT_INTERVAL, TASK_TIMEOUT_MESSAGE)]
    );
}

#[test]
fn new_manager_starts_at_tick_zero() {
    let timers = TimerManager::new();
    assert_eq!(timers.get_tick(), 0);
    assert!(!timers.check_task_timeout());
    assert!(timers.pending_timers().is_empty());
    assert_eq!(TASK_TIMEOUT_MESSAGE, i64::MAX);
}

#[test]
fn positive_timeout_payload_is_rearmed_later() {

    assert_eq!(next_timer(200, 2), Some(Timer::new(300, 3)));
    assert_eq!(next_timer(5, 0), None);
    assert_eq!(next_timer(5, -4), None);
    assert_eq!(next_timer(u64::MAX - 50, 1), None);
}
