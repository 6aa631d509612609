use vstd::prelude::*;

use crate::timer::{
    insert_timer, task_switch_timer, TimerManager, TimerState, Timer, TASK_TIMEOUT_INTERVAL,
    TASK_TIMEOUT_MESSAGE,
};

verus! {

/// Number of 64-bit words in each task's stack.
pub const TASK_STACK_WORDS: usize = 1024;

/// Size in bytes of each task's stack.
pub const TASK_STACK_BYTES: u64 = 8192;

/// RFLAGS of a freshly started task: only the interrupt-enable flag (and
/// the always-one bit 1) set.
pub const INITIAL_RFLAGS: u64 = 0x202;

/// Selector of the kernel code segment.
pub const KERNEL_CODE_SELECTOR: u64 = 0x08;

/// Size in bytes of the FXSAVE area of a context.
pub const FXSAVE_AREA_BYTES: usize = 512;

/// Saved CPU state of a task: everything needed to resume it. This type
/// fixes no memory layout; the fields are listed in the order of the
/// register block that a context switch routine lays out with C
/// representation, 16-byte aligned, and addresses by byte offset.
#[derive(Clone, Copy, Debug)]
pub struct TaskContext {
    pub cr3: u64,
    pub rip: u64,
    pub rflags: u64,
    pub reserved: u64,
    pub cs: u64,
    pub ss: u64,
    pub fs: u64,
    pub gs: u64,
    pub rax: u64,
    pub rbx: u64,
    pub rcx: u64,
    pub rdx: u64,
    pub rdi: u64,
    pub rsi: u64,
    pub rsp: u64,
    pub rbp: u64,
    pub r8: u64,
    pub r9: u64,
    pub r10: u64,
    pub r11: u64,
    pub r12: u64,
    pub r13: u64,
    pub r14: u64,
    pub r15: u64,
    pub fxsave: [u8; 512],
}

impl TaskContext {
    /// The context with every register and every FXSAVE byte zero.
    pub open spec fn zeroed() -> TaskContext {
        TaskContext {
            cr3: 0,
            rip: 0,
            rflags: 0,
            reserved: 0,
            cs: 0,
            ss: 0,
            fs: 0,
            gs: 0,
            rax: 0,
            rbx: 0,
            rcx: 0,
            rdx: 0,
            rdi: 0,
            rsi: 0,
            rsp: 0,
            rbp: 0,
            r8: 0,
            r9: 0,
            r10: 0,
            r11: 0,
            r12: 0,
            r13: 0,
            r14: 0,
            r15: 0,
            fxsave: vstd::array::spec_array_fill_for_copy_type::<u8, 512>(0),
        }
    }

    /// The context in which a spawned task starts: at `entry`, in the
    /// address space rooted at `page_table_root`, in kernel code with
    /// interrupts enabled, everything else zero (the stack pointer is set
    /// once the stack's address is known).
    pub open spec fn spawned(entry: u64, page_table_root: u64) -> TaskContext {
        TaskContext {
            rip: entry,
            cr3: page_table_root,
            rflags: INITIAL_RFLAGS,
            cs: KERNEL_CODE_SELECTOR,
            ss: 0,
            ..TaskContext::zeroed()
        }
    }

    pub fn new() -> (r: Self)
        ensures
            r == TaskContext::zeroed(),
    {
        TaskContext {
            cr3: 0,
            rip: 0,
            rflags: 0,
            reserved: 0,
            cs: 0,
            ss: 0,
            fs: 0,
            gs: 0,
            rax: 0,
            rbx: 0,
            rcx: 0,
            rdx: 0,
            rdi: 0,
            rsi: 0,
            rsp: 0,
            rbp: 0,
            r8: 0,
            r9: 0,
            r10: 0,
            r11: 0,
            r12: 0,
            r13: 0,
            r14: 0,
            r15: 0,
            fxsave: [0u8; 512],
        }
    }
}

/// How a task starts.
#[derive(Clone, Copy, Debug)]
pub enum TaskDescriptor {
    /// The context that is already running at boot; its state is captured
    /// on the first switch away from it.
    Main,
    /// A new task that starts at address `entry` in the address space whose
    /// top-level page table is at `page_table_root`.
    Func { entry: u64, page_table_root: u64 },
}

/// An execution context with a stack of its own.
#[derive(Debug)]
pub struct Task {
    stack: Vec<u64>,
    context: TaskContext,
}

impl Task {
    pub closed spec fn wf(&self) -> bool {
        self.stack@.len() == TASK_STACK_WORDS
    }

    /// The stack's words, lowest address first.
    pub closed spec fn stack_view(&self) -> Seq<u64> {
        self.stack@
    }

    pub closed spec fn spec_context(&self) -> TaskContext {
        self.context
    }

    /// A task with a fresh zeroed stack, set up as `desc` says.
    pub fn new(desc: TaskDescriptor) -> (r: Self)
        ensures
            r.wf(),
            r.stack_view() == Seq::new(TASK_STACK_WORDS as nat, |_i: int| 0u64),
            r.spec_context() == match desc {
                TaskDescriptor::Main => TaskContext::zeroed(),
                TaskDescriptor::Func { entry, page_table_root } => TaskContext::spawned(
                    entry,
                    page_table_root,
                ),
            },
    {
        let stack: Vec<u64> = vec![0u64; TASK_STACK_WORDS];
        let mut context = TaskContext::new();
        match desc {
            TaskDescriptor::Main => {},
            TaskDescriptor::Func { entry, page_table_root } => {
                context.rip = entry;
                context.cr3 = page_table_root;
                context.rflags = INITIAL_RFLAGS;
                context.cs = KERNEL_CODE_SELECTOR;
                context.ss = 0;
            },
        }
        proof {
            assert(stack@ =~= Seq::new(TASK_STACK_WORDS as nat, |_i: int| 0u64));
        }
        Task { stack, context }
    }

    pub fn stack(&self) -> (r: &[u64])
        requires
            self.wf(),
        ensures
            r@.len() == TASK_STACK_WORDS,
            r@ == self.stack_view(),
    {
        self.stack.as_slice()
    }

    pub fn context(&self) -> (r: &TaskContext)
        ensures
            *r == self.spec_context(),
    {
        &self.context
    }

    /// Points the saved stack pointer at the top of the stack whose lowest
    /// address is `stack_base`; the stack grows down from there.
    pub fn set_stack_base(&mut self, stack_base: u64)
        requires
            stack_base + TASK_STACK_BYTES <= u64::MAX,
        ensures
            final(self).wf() == old(self).wf(),
            final(self).stack_view() == old(self).stack_view(),
            final(self).spec_context() == (TaskContext {
                rsp: (stack_base + TASK_STACK_BYTES) as u64,
                ..old(self).spec_context()
            }),
    {
        self.context.rsp = stack_base + TASK_STACK_BYTES;
    }
}

/// The tasks, in the order they were added, and the one that runs now.
#[derive(Debug)]
pub struct TaskPool {
    tasks: Vec<Task>,
    current_task_idx: usize,
}

impl TaskPool {
    /// At least the main task is present and the current index names one.
    pub closed spec fn wf(&self) -> bool {
        &&& self.tasks@.len() > 0
        &&& self.current_task_idx < self.tasks@.len()
        &&& forall|i: int| 0 <= i < self.tasks@.len() ==> (#[trigger] self.tasks@[i]).wf()
    }

    /// The context that each task was created with, by index.
    pub closed spec fn contexts(&self) -> Seq<TaskContext> {
        self.tasks@.map_values(|t: Task| t.spec_context())
    }

    pub closed spec fn current(&self) -> nat {
        self.current_task_idx as nat
    }

    /// A pool holding only the main task, which is current.
    pub fn new() -> (r: Self)
        ensures
            r.wf(),
            r.contexts() == seq![TaskContext::zeroed()],
            r.current() == 0,
            r.current() < r.contexts().len(),
    {
        let mut tasks: Vec<Task> = Vec::new();
        tasks.push(Task::new(TaskDescriptor::Main));
        let r = TaskPool { tasks, current_task_idx: 0 };
        proof {
            assert(r.contexts() =~= seq![TaskContext::zeroed()]);
        }
        r
    }

    /// The current index names a task of the pool.
    pub proof fn lemma_current_in_range(&self)
        requires
            self.wf(),
        ensures
            self.current() < self.contexts().len(),
    {
    }

    pub fn len(&self) -> (r: usize)
        ensures
            r == self.contexts().len(),
    {
        self.tasks.len()
    }

    pub fn current_task_idx(&self) -> (r: usize)
        ensures
            r == self.current(),
    {
        self.current_task_idx
    }

    /// The task at index `idx`.
    pub fn task(&self, idx: usize) -> (r: &Task)
        requires
            idx < self.contexts().len(),
        ensures
            r.spec_context() == self.contexts()[idx as int],
    {
        &self.tasks[idx]
    }

    /// Appends `task`; the current task does not change.
    pub fn add_task(&mut self, task: Task)
        requires
            old(self).wf(),
            task.wf(),
        ensures
            final(self).wf(),
            final(self).contexts() == old(self).contexts().push(task.spec_context()),
            final(self).current() == old(self).current(),
            final(self).current() < final(self).contexts().len(),
    {
        let ghost t = task;
        self.tasks.push(task);
        proof {
            assert(self.contexts() =~= old(self).contexts().push(t.spec_context()));
        }
    }

    /// Round robin: makes the next task current, wrapping to the main task
    /// after the last one. Returns the indices of the outgoing and the
    /// incoming task, whose contexts the switch routine saves and loads.
    pub fn switch_task(&mut self) -> (r: (usize, usize))
        requires
            old(self).wf(),
        ensures
            final(self).wf(),
            final(self).contexts() == old(self).contexts(),
            final(self).current() == (old(self).current() + 1) % old(self).contexts().len(),
            final(self).current() < final(self).contexts().len(),
            r == (old(self).current() as usize, final(self).current() as usize),
    {
        let current_task_idx = self.current_task_idx;
        assert(current_task_idx < self.tasks.len());
        let next_task_idx = (self.current_task_idx + 1) % self.tasks.len();
        self.current_task_idx = next_task_idx;
        (current_task_idx, next_task_idx)
    }
}

/// Arms the task-switch timer that fires `TASK_TIMEOUT_INTERVAL` ticks
/// after `tick`.
pub fn add_task_timeout_timer(timers: &mut TimerManager, tick: u64)
    requires
        old(timers).wf(),
        tick + TASK_TIMEOUT_INTERVAL <= u64::MAX,
    ensures
        final(timers).wf(),
        final(timers)@ == (TimerState {
            pending: insert_timer(old(timers)@.pending, task_switch_timer(tick + TASK_TIMEOUT_INTERVAL)),
            ..old(timers)@
        }),
{
    timers.add_timer(Timer::new(tick + TASK_TIMEOUT_INTERVAL, TASK_TIMEOUT_MESSAGE));
}

/// Starts task switching: returns a pool that holds only the main task and
/// arms the first task-switch timer, counted from tick 0.
pub fn initialize_task_switch(timers: &mut TimerManager) -> (r: TaskPool)
    requires
        old(timers).wf(),
    ensures
        r.wf(),
        r.contexts() == seq![TaskContext::zeroed()],
        r.current() == 0,
        final(timers).wf(),
        final(timers)@ == (TimerState {
            pending: insert_timer(old(timers)@.pending, task_switch_timer(TASK_TIMEOUT_INTERVAL as int)),
            ..old(timers)@
        }),
{
    let pool = TaskPool::new();
    let initial_tick: u64 = 0;
    add_task_timeout_timer(timers, initial_tick);
    pool
}

} // verus!
