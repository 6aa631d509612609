use mikanos_kernel::event::{Event, EventQueue, EVENT_QUEUE_SIZE};
use mikanos_kernel::queue::Queue;

#[test]
fn pop_returns_pushed_value() {
    let mut q: Queue<u32, 4> = Queue::new(0);
    assert!(q.is_empty());
    assert_eq!(q.push(7), Ok(()));
    assert!(!q.is_empty());
    assert_eq!(q.pop(), Some(7));
    assert!(q.is_empty());
}

#[test]
fn values_come_out_in_push_order() {
    let mut q: Queue<u32, 4> = Queue::new(0);
    for v in [1, 2, 3] {
        assert_eq!(q.push(v), Ok(()));
    }
    assert_eq!(q.pop(), Some(1));
    assert_eq!(q.push(4), Ok(()));
    assert_eq!(q.push(5), Ok(()));
    assert!(q.is_full());
    assert_eq!(q.pop(), Some(2));
    assert_eq!(q.pop(), Some(3));
    assert_eq!(q.pop(), Some(4));
    assert_eq!(q.pop(), Some(5));
    assert_eq!(q.pop(), None);
}

#[test]
fn order_is_kept_across_many_wraparounds() {
    let mut q: Queue<u64, 3> = Queue::new(0);
    let mut next_in = 0u64;
    let mut next_out = 0u64;
    for round in 0..50u64 {
        let pushes = round % 3 + 1;
        for _ in 0..pushes {
            if q.push(next_in).is_ok() {
                next_in += 1;
            }
        }
        for _ in 0..(round % 2 + 1) {
            if let Some(v) = q.pop() {
                assert_eq!(v, next_out);
                next_out += 1;
            }
        }
    }
    while let Some(v) = q.pop() {
        assert_eq!(v, next_out);
        next_out += 1;
    }
    assert_eq!(next_in, next_out);
}

#[test]
fn push_into_full_queue_returns_rejected_event() {
    let mut q = EventQueue::new(Event::Invalid);
    for i in 0..EVENT_QUEUE_SIZE {
        assert_eq!(q.push(Event::Timeout(i as u64, i as i64)), Ok(()));
    }
    assert!(q.is_full());
    let extra = Event::Timeout(1000, -5);
    assert_eq!(q.push(extra), Err(extra));
    assert!(q.is_full());
    for i in 0..EVENT_QUEUE_SIZE {
        assert_eq!(q.pop(), Some(Event::Timeout(i as u64, i as i64)));
    }
    assert_eq!(q.pop(), None);
}

#[test]
fn popping_empty_queue_repeatedly_returns_none() {
    let mut q = EventQueue::new(Event::Invalid);
    for _ in 0..100 {
        assert_eq!(q.pop(), None);
        assert!(q.is_empty());
        assert!(!q.is_full());
    }
    assert_eq!(q.push(Event::XHCI), Ok(()));
    assert_eq!(q.pop(), Some(Event::XHCI));
    assert_eq!(q.pop(), None);
}

#[test]
fn default_queue_is_empty() {
    let mut q: Queue<Event, 8> = Queue::default();
    assert!(q.is_empty());
    assert_eq!(q.pop(), None);
    assert_eq!(Event::default(), Event::Invalid);
}

#[test]
fn zero_capacity_queue_rejects_everything() {
    let mut q: Queue<u8, 0> = Queue::new(0);
    assert!(q.is_empty());
    assert!(q.is_full());
    assert_eq!(q.push(3), Err(3));
    assert_eq!(q.pop(), None);
}
