use vstd::prelude::*;

use crate::event::{push_all_or_drop, Event, EventQueue, EVENT_QUEUE_SIZE};

verus! {

/// Ticks between two consecutive task switches.
pub const TASK_TIMEOUT_INTERVAL: u64 = 10;

/// Reserved payload that marks a task-switch timer.
pub const TASK_TIMEOUT_MESSAGE: i64 = 0x7fff_ffff_ffff_ffff;

/// A pending timeout: it fires on the first tick at or after `deadline`.
#[derive(Clone, Copy, Debug, PartialEq, Eq, Structural)]
pub struct Timer {
    pub deadline: u64,
    pub payload: i64,
}

impl Timer {
    pub fn new(deadline: u64, payload: i64) -> (r: Self)
        ensures
            r == (Timer { deadline, payload }),
    {
        Timer { deadline, payload }
    }

    pub open spec fn is_task_switch(self) -> bool {
        self.payload == TASK_TIMEOUT_MESSAGE
    }
}

/// Ticks after a timeout at which the main loop re-arms it.
pub const TIMEOUT_REARM_DELAY: u64 = 100;

/// The main loop's continuation rule for a delivered `Event::Timeout`: a
/// positive payload asks for another timeout `TIMEOUT_REARM_DELAY` ticks
/// after the old deadline with the payload one larger; any other payload,
/// or numbers that would overflow, ask for none.
pub fn next_timer(deadline: u64, payload: i64) -> (r: Option<Timer>)
    ensures
        r == if payload > 0 && deadline + TIMEOUT_REARM_DELAY <= u64::MAX && payload + 1 <= i64::MAX {
            Some(Timer { deadline: (deadline + TIMEOUT_REARM_DELAY) as u64, payload: (payload + 1) as i64 })
        } else {
            None::<Timer>
        },
{
    if payload > 0 && deadline <= u64::MAX - TIMEOUT_REARM_DELAY && payload < i64::MAX {
        Some(Timer::new(deadline + TIMEOUT_REARM_DELAY, payload + 1))
    } else {
        None
    }
}

/// The task-switch timer due at `deadline`.
pub open spec fn task_switch_timer(deadline: int) -> Timer {
    Timer { deadline: deadline as u64, payload: TASK_TIMEOUT_MESSAGE }
}

/// Timers ordered by non-decreasing deadline.
pub open spec fn sorted_by_deadline(s: Seq<Timer>) -> bool {
    forall|i: int, j: int| 0 <= i <= j < s.len() ==> s[i].deadline <= s[j].deadline
}

/// Length of the leading run of timers whose deadline is at most `t`.
pub open spec fn due_count(s: Seq<Timer>, t: int) -> nat
    decreases s.len(),
{
    if s.len() > 0 && s[0].deadline <= t {
        1 + due_count(s.drop_first(), t)
    } else {
        0
    }
}

/// `s` with `t` placed after every timer whose deadline is at most `t`'s:
/// timers with equal deadlines keep the order in which they were added.
pub open spec fn insert_timer(s: Seq<Timer>, t: Timer) -> Seq<Timer> {
    s.insert(due_count(s, t.deadline as int) as int, t)
}

/// `s` with `n` task-switch timers due at `d` placed in deadline order.
pub open spec fn insert_task_switch_timers(s: Seq<Timer>, n: nat, d: int) -> Seq<Timer> {
    let j = due_count(s, d) as int;
    s.take(j) + Seq::new(n, |_i: int| task_switch_timer(d)) + s.skip(j)
}

/// Number of task-switch timers in `s`.
pub open spec fn task_switch_count(s: Seq<Timer>) -> nat
    decreases s.len(),
{
    if s.len() == 0 {
        0
    } else {
        task_switch_count(s.drop_last()) + if s.last().is_task_switch() {
            1nat
        } else {
            0nat
        }
    }
}

/// The events that the expiry of `fired`, in this order, produces: one
/// timeout for each timer that is not a task-switch timer.
pub open spec fn timeout_events(fired: Seq<Timer>) -> Seq<Event>
    decreases fired.len(),
{
    if fired.len() == 0 {
        Seq::empty()
    } else {
        let prev = timeout_events(fired.drop_last());
        let t = fired.last();
        if t.is_task_switch() {
            prev
        } else {
            prev.push(Event::Timeout(t.deadline, t.payload))
        }
    }
}

/// The deadline of a timeout event.
pub open spec fn event_deadline(e: Event) -> int {
    e->Timeout_0 as int
}

/// `events` are timeouts due no later than `now`, in non-decreasing
/// deadline order, none of them carrying the task-switch payload.
pub open spec fn timeout_events_in_order(events: Seq<Event>, now: int) -> bool {
    &&& forall|i: int|
        0 <= i < events.len() ==> (events[i] is Timeout && event_deadline(events[i]) <= now
            && events[i]->Timeout_1 != TASK_TIMEOUT_MESSAGE)
    &&& forall|i: int, k: int|
        0 <= i <= k < events.len() ==> event_deadline(events[i]) <= event_deadline(events[k])
}

/// Abstract state of a timer manager.
pub struct TimerState {
    pub tick: nat,
    /// Pending timers in the order in which they fire.
    pub pending: Seq<Timer>,
    pub task_timeout: bool,
}

impl TimerState {
    pub open spec fn wf(self) -> bool {
        sorted_by_deadline(self.pending)
    }

    /// The timers that the next tick fires, in firing order.
    pub open spec fn fired(self) -> Seq<Timer> {
        self.pending.take(due_count(self.pending, (self.tick + 1) as int) as int)
    }

    /// The state after one tick: the counter advances, the due timers leave,
    /// and each task-switch timer among them is re-armed one interval later.
    pub open spec fn next(self) -> TimerState {
        let now = (self.tick + 1) as int;
        let rest = self.pending.skip(due_count(self.pending, now) as int);
        let n = task_switch_count(self.fired());
        TimerState {
            tick: now as nat,
            pending: insert_task_switch_timers(rest, n, now + TASK_TIMEOUT_INTERVAL),
            task_timeout: self.task_timeout || n > 0,
        }
    }
}

/// Deadline-ordered pending timers driven by the periodic timer interrupt.
pub struct TimerManager {
    tick: u64,
    timers: Vec<Timer>,
    task_timeout: bool,
}

impl View for TimerManager {
    type V = TimerState;

    closed spec fn view(&self) -> TimerState {
        TimerState { tick: self.tick as nat, pending: self.timers@, task_timeout: self.task_timeout }
    }
}

impl TimerManager {
    /// The pending timers are in deadline order.
    pub open spec fn wf(&self) -> bool {
        self@.wf()
    }

    /// A manager at tick 0 with no pending timer.
    pub fn new() -> (r: Self)
        ensures
            r.wf(),
            r@ == (TimerState { tick: 0, pending: Seq::empty(), task_timeout: false }),
    {
        TimerManager { tick: 0, timers: Vec::new(), task_timeout: false }
    }

    pub fn get_tick(&self) -> (r: u64)
        ensures
            r == self@.tick,
    {
        self.tick
    }

    /// The pending timers, in the order in which they will fire.
    pub fn pending_timers(&self) -> (r: &[Timer])
        ensures
            r@ == self@.pending,
    {
        self.timers.as_slice()
    }

    /// Whether a task-switch timer has fired since the flag was last reset.
    pub fn check_task_timeout(&self) -> (r: bool)
        ensures
            r == self@.task_timeout,
    {
        self.task_timeout
    }

    pub fn reset_task_timeout(&mut self)
        ensures
            final(self).wf() == old(self).wf(),
            final(self)@ == (TimerState { task_timeout: false, ..old(self)@ }),
    {
        self.task_timeout = false;
    }

    /// Arms `timer`; it goes after every pending timer with a deadline that
    /// is not later than its own, found by binary search.
    pub fn add_timer(&mut self, timer: Timer)
        requires
            old(self).wf(),
        ensures
            final(self).wf(),
            final(self)@ == (TimerState {
                pending: insert_timer(old(self)@.pending, timer),
                ..old(self)@
            }),
    {
        let ghost s = self.timers@;
        let mut lo: usize = 0;
        let mut hi: usize = self.timers.len();
        while lo < hi
            invariant
                self.timers@ == s,
                sorted_by_deadline(s),
                lo <= hi <= s.len(),
                forall|j: int| 0 <= j < lo ==> s[j].deadline <= timer.deadline,
                forall|j: int| hi <= j < s.len() ==> s[j].deadline > timer.deadline,
            decreases hi - lo,
        {
            let mid = lo + (hi - lo) / 2;
            if self.timers[mid].deadline <= timer.deadline {
                lo = mid + 1;
            } else {
                hi = mid;
            }
        }
        proof {
            lemma_due_count_is(s, timer.deadline as int, lo as int);
            lemma_insert_timer_sorted(s, timer);
        }
        self.timers.insert(lo, timer);
    }

    /// Handles one timer interrupt: the tick counter advances by one, then
    /// every timer whose deadline has been reached leaves, earliest first.
    /// A task-switch timer sets the task-timeout flag and is re-armed
    /// `TASK_TIMEOUT_INTERVAL` ticks later; any other timer becomes an
    /// `Event::Timeout` pushed to `events`, or is dropped when the queue is
    /// full. Returns how many events were dropped.
    pub fn tick(&mut self, events: &mut EventQueue) -> (dropped: usize)
        requires
            old(self).wf(),
            old(events).wf(),
            old(self)@.tick + 1 + TASK_TIMEOUT_INTERVAL <= u64::MAX,
        ensures
            final(self).wf(),
            final(self)@ == old(self)@.next(),
            forall|i: int|
                0 <= i < final(self)@.pending.len() ==> final(self)@.pending[i].deadline > final(self)@.tick,
            timeout_events_in_order(timeout_events(old(self)@.fired()), final(self)@.tick as int),
            task_switch_count(old(self)@.fired()) > 0 ==> final(self)@.task_timeout
                && final(self)@.pending.contains(
                task_switch_timer(final(self)@.tick + TASK_TIMEOUT_INTERVAL),
            ),
            final(events).wf(),
            final(events)@ == push_all_or_drop(
                old(events)@,
                timeout_events(old(self)@.fired()),
                EVENT_QUEUE_SIZE as nat,
            ),
            dropped == old(events)@.len() + timeout_events(old(self)@.fired()).len()
                - final(events)@.len(),
    {
        self.tick = self.tick + 1;
        let now = self.tick;
        let ghost s0 = self.timers@;
        let mut k: usize = 0;
        while k < self.timers.len() && self.timers[k].deadline <= now
            invariant
                self.timers@ == s0,
                k <= s0.len(),
                forall|j: int| 0 <= j < k ==> s0[j].deadline <= now,
            decreases s0.len() - k,
        {
            k = k + 1;
        }
        proof {
            lemma_due_count_is(s0, now as int, k as int);
        }
        let mut fired = self.timers.split_off(k);
        core::mem::swap(&mut self.timers, &mut fired);
        let ghost rest = self.timers@;
        let ghost q0 = events@;
        let ghost d = now + TASK_TIMEOUT_INTERVAL;
        proof {
            assert(rest == s0.skip(k as int));
            assert(fired@ == s0.take(k as int));
            assert(fired@.take(0) =~= Seq::<Timer>::empty());
            lemma_due_count_bounds(rest, d as int);
            assert(insert_task_switch_timers(rest, 0, d) =~= rest);
            events.lemma_len_bounded();
            assert(q0 + Seq::<Event>::empty() =~= q0);
            assert(sorted_by_deadline(rest));
        }
        let mut dropped: usize = 0;
        let mut i: usize = 0;
        while i < fired.len()
            invariant
                fired@ == s0.take(k as int),
                rest == s0.skip(k as int),
                sorted_by_deadline(rest),
                i <= fired@.len(),
                self.tick == now,
                now == old(self).tick + 1,
                d == now + TASK_TIMEOUT_INTERVAL,
                d <= u64::MAX,
                self.timers@ == insert_task_switch_timers(rest, task_switch_count(fired@.take(i as int)), d),
                sorted_by_deadline(self.timers@),
                self.task_timeout == (old(self).task_timeout || task_switch_count(fired@.take(i as int)) > 0),
                events.wf(),
                q0.len() <= EVENT_QUEUE_SIZE,
                events@ == push_all_or_drop(q0, timeout_events(fired@.take(i as int)), EVENT_QUEUE_SIZE as nat),
                dropped == q0.len() + timeout_events(fired@.take(i as int)).len() - events@.len(),
                dropped <= i,
            decreases fired.len() - i,
        {
            let t = fired[i];
            let ghost before = fired@.take(i as int);
            proof {
                assert(fired@.take(i + 1).drop_last() =~= before);
                assert(fired@.take(i + 1).last() == t);
            }
            if t.payload == TASK_TIMEOUT_MESSAGE {
                self.task_timeout = true;
                proof {
                    lemma_insert_task_switch_timer(rest, task_switch_count(before), d);
                }
                self.add_timer(Timer::new(now + TASK_TIMEOUT_INTERVAL, TASK_TIMEOUT_MESSAGE));
            } else {
                proof {
                    lemma_push_all_or_drop_step(
                        q0,
                        timeout_events(before),
                        Event::Timeout(t.deadline, t.payload),
                        EVENT_QUEUE_SIZE as nat,
                    );
                }
                match events.push(Event::Timeout(t.deadline, t.payload)) {
                    Ok(()) => {},
                    Err(_) => {
                        dropped = dropped + 1;
                    },
                }
            }
            i = i + 1;
        }
        proof {
            assert(fired@.take(fired@.len() as int) =~= fired@);
            lemma_timers_fire_in_deadline_order(old(self)@);
            lemma_task_switch_timer_rearms(old(self)@);
        }
        dropped
    }
}

/// Timers fire in deadline order and never early. On one tick, every timer
/// that fires has a deadline no later than the new tick value, the fired
/// timers come out in non-decreasing deadline order, and every timer still
/// pending afterwards is due strictly later than the new tick, so a timer
/// with deadline `d` has fired by the tick that reaches `d`. Every timer
/// that the following tick fires is due no earlier than any timer fired by
/// this one. When no task-switch timer fires, no timer is lost or made up:
/// the pending timers are exactly the fired ones followed by those left.
pub proof fn lemma_timers_fire_in_deadline_order(s: TimerState)
    requires
        s.wf(),
        s.tick + 1 + TASK_TIMEOUT_INTERVAL <= u64::MAX,
    ensures
        s.next().wf(),
        s.next().tick == s.tick + 1,
        sorted_by_deadline(s.fired()),
        forall|i: int| 0 <= i < s.fired().len() ==> s.fired()[i].deadline <= s.next().tick,
        forall|i: int|
            0 <= i < s.next().pending.len() ==> s.next().pending[i].deadline > s.next().tick,
        forall|i: int, j: int|
            0 <= i < s.fired().len() && 0 <= j < s.next().fired().len() ==> s.fired()[i].deadline
                <= s.next().fired()[j].deadline,
        task_switch_count(s.fired()) == 0 ==> s.pending == s.fired() + s.next().pending,
        timeout_events_in_order(timeout_events(s.fired()), s.next().tick as int),
        forall|i: int, j: int|
            0 <= i < timeout_events(s.fired()).len() && 0 <= j < timeout_events(s.next().fired()).len()
                ==> event_deadline(timeout_events(s.fired())[i]) <= event_deadline(
                timeout_events(s.next().fired())[j],
            ),
{
    let now = (s.tick + 1) as int;
    let k = due_count(s.pending, now) as int;
    let rest = s.pending.skip(k);
    let n = task_switch_count(s.fired());
    let d = now + TASK_TIMEOUT_INTERVAL as int;
    lemma_due_count_bounds(s.pending, now);
    lemma_due_count_sorted(s.pending, now);
    assert(sorted_by_deadline(rest));
    let w = s.next().pending;
    let j = due_count(rest, d) as int;
    lemma_due_count_bounds(rest, d);
    lemma_due_count_sorted(rest, d);
    assert forall|a: int, b: int| 0 <= a <= b < w.len() implies w[a].deadline <= w[b].deadline by {
        if a >= j + n {
            assert(w[a] == rest[a - n] && w[b] == rest[b - n]);
        } else if a >= j {
            assert(w[a] == task_switch_timer(d));
            if b >= j + n {
                assert(w[b] == rest[b - n]);
            }
        } else {
            assert(w[a] == rest[a]);
            if b >= j + n {
                assert(w[b] == rest[b - n]);
            } else if b >= j {
                assert(w[b] == task_switch_timer(d));
            }
        }
    }
    assert forall|i: int| 0 <= i < w.len() implies w[i].deadline > now by {
        if i >= j + n {
            assert(w[i] == rest[i - n]);
        } else if i < j {
            assert(w[i] == rest[i]);
        }
    }
    let f2 = s.next().fired();
    lemma_due_count_bounds(w, now + 1);
    assert forall|a: int, b: int|
        0 <= a < s.fired().len() && 0 <= b < f2.len() implies s.fired()[a].deadline
            <= f2[b].deadline by {
        assert(f2[b] == w[b]);
    }
    if n == 0 {
        assert(w =~= rest);
        assert(s.pending =~= s.fired() + rest);
    }
    lemma_events_follow_timers(s.fired(), f2, now);
}

/// Timeout events inherit the order facts of the timers they come from.
proof fn lemma_events_follow_timers(f1: Seq<Timer>, f2: Seq<Timer>, now: int)
    requires
        sorted_by_deadline(f1),
        forall|i: int| 0 <= i < f1.len() ==> f1[i].deadline <= now,
        forall|i: int, j: int|
            0 <= i < f1.len() && 0 <= j < f2.len() ==> f1[i].deadline <= f2[j].deadline,
    ensures
        timeout_events_in_order(timeout_events(f1), now),
        forall|i: int, j: int|
            0 <= i < timeout_events(f1).len() && 0 <= j < timeout_events(f2).len() ==> event_deadline(
                timeout_events(f1)[i],
            ) <= event_deadline(timeout_events(f2)[j]),
{
    lemma_timeout_events_from(f1);
    lemma_timeout_events_from(f2);
    let e1 = timeout_events(f1);
    let e2 = timeout_events(f2);
    assert forall|i: int| 0 <= i < e1.len() implies event_deadline(e1[i]) <= now by {
        let a = choose|a: int| 0 <= a < f1.len() && e1[i]->Timeout_0 == f1[a].deadline;
    }
    assert forall|i: int, j: int| 0 <= i < e1.len() && 0 <= j < e2.len() implies event_deadline(e1[i])
        <= event_deadline(e2[j]) by {
        let a = choose|a: int| 0 <= a < f1.len() && e1[i]->Timeout_0 == f1[a].deadline;
        let b = choose|b: int| 0 <= b < f2.len() && e2[j]->Timeout_0 == f2[b].deadline;
    }
}

/// Each timeout event comes from a fired timer that is not a task-switch
/// timer, and the events keep the deadline order of sorted timers.
proof fn lemma_timeout_events_from(fired: Seq<Timer>)
    ensures
        forall|i: int|
            0 <= i < timeout_events(fired).len() ==> (timeout_events(fired)[i] is Timeout
                && timeout_events(fired)[i]->Timeout_1 != TASK_TIMEOUT_MESSAGE && exists|a: int|
                0 <= a < fired.len() && timeout_events(fired)[i]->Timeout_0 == fired[a].deadline),
        sorted_by_deadline(fired) ==> forall|i: int, k: int|
            0 <= i <= k < timeout_events(fired).len() ==> event_deadline(timeout_events(fired)[i])
                <= event_deadline(timeout_events(fired)[k]),
    decreases fired.len(),
{
    if fired.len() > 0 {
        let p = fired.drop_last();
        lemma_timeout_events_from(p);
        let ev = timeout_events(fired);
        let pe = timeout_events(p);
        assert forall|i: int| 0 <= i < ev.len() implies (ev[i] is Timeout && ev[i]->Timeout_1
            != TASK_TIMEOUT_MESSAGE && exists|a: int|
            0 <= a < fired.len() && ev[i]->Timeout_0 == fired[a].deadline) by {
            if i < pe.len() {
                let a = choose|a: int| 0 <= a < p.len() && pe[i]->Timeout_0 == p[a].deadline;
                assert(fired[a] == p[a]);
            } else {
                assert(ev[i]->Timeout_0 == fired[fired.len() - 1].deadline);
            }
        }
        if sorted_by_deadline(fired) {
            assert(sorted_by_deadline(p));
            assert forall|i: int, k: int| 0 <= i <= k < ev.len() implies event_deadline(ev[i])
                <= event_deadline(ev[k]) by {
                if k >= pe.len() {
                    if i < pe.len() {
                        let a = choose|a: int| 0 <= a < p.len() && pe[i]->Timeout_0 == p[a].deadline;
                        assert(fired[a] == p[a]);
                    }
                }
            }
        }
    }
}

/// Task-switch timers are never seen as events. A tick that fires one sets
/// the task-timeout flag and leaves a task-switch timer pending that is due
/// `TASK_TIMEOUT_INTERVAL` ticks after the new tick value; and no event
/// that a tick produces carries the task-switch payload.
pub proof fn lemma_task_switch_timer_rearms(s: TimerState)
    requires
        s.wf(),
        s.tick + 1 + TASK_TIMEOUT_INTERVAL <= u64::MAX,
    ensures
        task_switch_count(s.fired()) > 0 ==> s.next().task_timeout && s.next().pending.contains(
            task_switch_timer(s.tick + 1 + TASK_TIMEOUT_INTERVAL),
        ),
        forall|i: int|
            0 <= i < timeout_events(s.fired()).len() ==> (timeout_events(s.fired())[i] is Timeout
                && timeout_events(s.fired())[i]->Timeout_1 != TASK_TIMEOUT_MESSAGE),
{
    let now = (s.tick + 1) as int;
    let rest = s.pending.skip(due_count(s.pending, now) as int);
    let d = now + TASK_TIMEOUT_INTERVAL as int;
    let n = task_switch_count(s.fired());
    if n > 0 {
        let j = due_count(rest, d) as int;
        lemma_due_count_bounds(rest, d);
        assert(s.next().pending[j] == task_switch_timer(d));
    }
    lemma_timeout_events_from(s.fired());
}

proof fn lemma_push_all_or_drop_step(q: Seq<Event>, es: Seq<Event>, e: Event, cap: nat)
    requires
        q.len() <= cap,
    ensures
        push_all_or_drop(q, es, cap).len() <= cap,
        push_all_or_drop(q, es, cap).len() <= q.len() + es.len(),
        push_all_or_drop(q, es, cap).len() < cap ==> push_all_or_drop(q, es.push(e), cap)
            == push_all_or_drop(q, es, cap).push(e),
        push_all_or_drop(q, es, cap).len() == cap ==> push_all_or_drop(q, es.push(e), cap)
            == push_all_or_drop(q, es, cap),
{
    let b = push_all_or_drop(q, es, cap);
    if b.len() < cap {
        assert(q + es.push(e) =~= (q + es).push(e));
    } else {
        assert((q + es.push(e)).take(cap as int) =~= b);
    }
}

proof fn lemma_insert_task_switch_timer(s: Seq<Timer>, n: nat, d: int)
    requires
        sorted_by_deadline(s),
        0 <= d <= u64::MAX,
    ensures
        insert_timer(insert_task_switch_timers(s, n, d), task_switch_timer(d))
            == insert_task_switch_timers(s, n + 1, d),
{
    let j = due_count(s, d) as int;
    let w = insert_task_switch_timers(s, n, d);
    lemma_due_count_bounds(s, d);
    lemma_due_count_sorted(s, d);
    assert forall|i: int| 0 <= i < j + n implies w[i].deadline <= d by {
        if i < j {
            assert(w[i] == s[i]);
        } else {
            assert(w[i] == task_switch_timer(d));
        }
    }
    if j + n < w.len() {
        assert(w[j + n] == s[j]);
    }
    lemma_due_count_is(w, d, j + n);
    assert(w.insert(j + n, task_switch_timer(d)) =~= insert_task_switch_timers(s, n + 1, d));
}

proof fn lemma_due_count_bounds(s: Seq<Timer>, t: int)
    ensures
        due_count(s, t) <= s.len(),
        forall|i: int| 0 <= i < due_count(s, t) ==> s[i].deadline <= t,
        due_count(s, t) < s.len() ==> s[due_count(s, t) as int].deadline > t,
    decreases s.len(),
{
    if s.len() > 0 && s[0].deadline <= t {
        lemma_due_count_bounds(s.drop_first(), t);
        assert forall|i: int| 0 <= i < due_count(s, t) implies s[i].deadline <= t by {
            if i > 0 {
                assert(s[i] == s.drop_first()[i - 1]);
            }
        }
    }
}

proof fn lemma_due_count_is(s: Seq<Timer>, t: int, k: int)
    requires
        0 <= k <= s.len(),
        forall|i: int| 0 <= i < k ==> s[i].deadline <= t,
        k < s.len() ==> s[k].deadline > t,
    ensures
        due_count(s, t) == k,
{
    lemma_due_count_bounds(s, t);
}

proof fn lemma_due_count_sorted(s: Seq<Timer>, t: int)
    requires
        sorted_by_deadline(s),
    ensures
        forall|i: int| due_count(s, t) <= i < s.len() ==> s[i].deadline > t,
{
    lemma_due_count_bounds(s, t);
}

proof fn lemma_insert_timer_sorted(s: Seq<Timer>, t: Timer)
    requires
        sorted_by_deadline(s),
    ensures
        sorted_by_deadline(insert_timer(s, t)),
{
    lemma_due_count_bounds(s, t.deadline as int);
    lemma_due_count_sorted(s, t.deadline as int);
}

} // verus!
