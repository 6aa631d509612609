use mikanos_kernel::event::{Event, EventQueue};
use mikanos_kernel::task::{
    add_task_timeout_timer, initialize_task_switch, Task, TaskContext, TaskDescriptor, TaskPool,
    INITIAL_RFLAGS, KERNEL_CODE_SELECTOR, TASK_STACK_BYTES, TASK_STACK_WORDS,
};
use mikanos_kernel::timer::{Timer, TimerManager, TASK_TIMEOUT_INTERVAL, TASK_TIMEOUT_MESSAGE};

fn spawned(entry: u64) -> Task {
    Task::new(TaskDescriptor::Func { entry, page_table_root: 0x1000 })
}

#[test]
fn three_switches_visit_every_task_in_turn() {
    let mut pool = TaskPool::new();
    pool.add_task(spawned(0x1111));
    pool.add_task(spawned(0x2222));
    assert_eq!(pool.len(), 3);
    assert_eq!(pool.current_task_idx(), 0);
    let mut pairs = Vec::new();
    for _ in 0..3 {
        pairs.push(pool.switch_task());
    }
    assert_eq!(pairs, vec![(0, 1), (1, 2), (2, 0)]);
    assert_eq!(pool.current_task_idx(), 0);
}

#[test]
fn pool_with_only_main_task_switches_to_itself() {
    let mut pool = TaskPool::new();
    assert_eq!(pool.switch_task(), (0, 0));
    assert_eq!(pool.current_task_idx(), 0);
}

#[test]
fn added_tasks_keep_their_contexts_in_order() {
    let mut pool = TaskPool::new();
    pool.add_task(spawned(0xaaaa));
    pool.add_task(spawned(0xbbbb));
    assert_eq!(pool.task(0).context().rip, 0);
    assert_eq!(pool.task(1).context().rip, 0xaaaa);
    assert_eq!(pool.task(2).context().rip, 0xbbbb);
    pool.switch_task();
    assert_eq!(pool.task(1).context().rip, 0xaaaa);
}

#[test]
fn new_context_is_all_zero() {
    let ctx = TaskContext::new();
    assert_eq!(ctx.cr3, 0);
    assert_eq!(ctx.rip, 0);
    assert_eq!(ctx.rflags, 0);
    assert_eq!(ctx.rsp, 0);
    assert_eq!(ctx.r15, 0);
    assert!(ctx.fxsave.iter().all(|b| *b == 0));
    assert_eq!(ctx.fxsave.len(), 512);
}

#[test]
fn spawned_task_starts_at_its_entry_with_interrupts_enabled() {
    let mut task = Task::new(TaskDescriptor::Func { entry: 0xdead_beef, page_table_root: 0x5000 });
    let ctx = *task.context();
    assert_eq!(ctx.rip, 0xdead_beef);
    assert_eq!(ctx.cr3, 0x5000);
    assert_eq!(ctx.rflags, INITIAL_RFLAGS);
    assert_eq!(ctx.rflags & 0x200, 0x200);
    assert_eq!(ctx.cs, KERNEL_CODE_SELECTOR);
    assert_eq!(ctx.ss, 0);
    assert_eq!(ctx.rax, 0);
    assert_eq!(task.stack().len(), TASK_STACK_WORDS);
    task.set_stack_base(0x10_0000);
    assert_eq!(task.context().rsp, 0x10_0000 + TASK_STACK_BYTES);
    assert_eq!(task.context().rip, 0xdead_beef);
}

#[test]
fn main_task_context_is_empty_until_first_switch() {
    let task = Task::new(TaskDescriptor::Main);
    assert_eq!(task.context().rip, 0);
    assert_eq!(task.context().cr3, 0);
    assert_eq!(task.stack().len(), TASK_STACK_WORDS);
}

#[test]
fn initialization_arms_first_task_switch_timer() {
    let mut timers = TimerManager::new();
    let pool = initialize_task_switch(&mut timers);
    assert_eq!(pool.len(), 1);
    assert_eq!(pool.current_task_idx(), 0);
    assert_eq!(
        timers.pending_timers().to_vec(),
        vec![Timer::new(TASK_TIMEOUT_INTERVAL, TASK_TIMEOUT_MESSAGE)]
    );
    let mut events = EventQueue::new(Event::Invalid);
    for _ in 0..TASK_TIMEOUT_INTERVAL {
        timers.tick(&mut events);
    }
    assert!(timers.check_task_timeout());
    assert!(events.is_empty());
}

#[test]
fn task_timeout_timer_is_due_one_interval_later() {
    let mut timers = TimerManager::new();
    timers.add_timer(Timer::new(100, 1));
    add_task_timeout_timer(&mut timers, 25);
    assert_eq!(
        timers.pending_timers().to_vec(),
        vec![Timer::new(25 + TASK_TIMEOUT_INTERVAL, TASK_TIMEOUT_MESSAGE), Timer::new(100, 1)]
    );
}

#[test]
fn scheduler_driven_by_timer_flag_rotates_tasks() {
    let mut timers = TimerManager::new();
    let mut pool = initialize_task_switch(&mut timers);
    pool.add_task(spawned(0x1));
    pool.add_task(spawned(0x2));
    let mut events = EventQueue::new(Event::Invalid);
    let mut visited = Vec::new();
    for _ in 0..(3 * TASK_TIMEOUT_INTERVAL) {
        timers.tick(&mut events);
        if timers.check_task_timeout() {
            timers.reset_task_timeout();
            visited.push(pool.switch_task());
        }
    }
    assert_eq!(visited, vec![(0, 1), (1, 2), (2, 0)]);
    assert!(events.is_empty());
}

#[test]
fn new_task_stack_is_zeroed() {
    let task = spawned(0x42);
    assert!(task.stack().iter().all(|w| *w == 0));
    assert_eq!(task.stack().len(), TASK_STACK_WORDS);
}
