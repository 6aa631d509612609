use vstd::prelude::*;

use crate::queue::Queue;

verus! {

/// A kernel-level notification, produced by interrupt handlers and the timer
/// manager and consumed once by the main loop.
#[derive(Clone, Copy, Debug, PartialEq, Eq, Structural)]
pub enum Event {
    /// Placeholder that fills unused queue slots; the consumer never sees it.
    Invalid,
    /// The xHCI controller raised an interrupt.
    XHCI,
    /// A timer with the given deadline expired; the payload is echoed back
    /// unchanged to whoever armed the timer.
    Timeout(u64, i64),
}

impl Default for Event {
    fn default() -> (r: Self)
        ensures
            r == Event::Invalid,
    {
        Event::Invalid
    }
}

/// Capacity of the kernel's event queue.
pub const EVENT_QUEUE_SIZE: usize = 32;

/// The queue through which interrupt handlers and timers hand events to the
/// main loop.
pub type EventQueue = Queue<Event, EVENT_QUEUE_SIZE>;

/// What a queue holding `q` holds after `extra` is pushed value by value,
/// with every push that finds the queue full dropped.
pub open spec fn push_all_or_drop(q: Seq<Event>, extra: Seq<Event>, cap: nat) -> Seq<Event> {
    let all = q + extra;
    if all.len() <= cap {
        all
    } else {
        all.take(cap as int)
    }
}

} // verus!
