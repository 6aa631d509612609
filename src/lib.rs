//! Run-time core of a small x86-64 kernel: a bounded event queue, a
//! deadline-ordered timer manager, a round-robin task scheduler with its
//! saved machine contexts, nested critical sections, descriptor table
//! encodings and a bitmap page-frame allocator.

pub mod descriptor;
pub mod event;
pub mod graphics;
pub mod interrupt;
pub mod memory_manager;
pub mod mouse;
pub mod queue;
pub mod segment;
pub mod task;
pub mod timer;
