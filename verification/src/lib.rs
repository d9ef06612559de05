//! Core logic of a small teaching kernel: the bump heap allocator, the
//! keyboard input pipeline, the priority task executor, the tick timer and
//! the page-table walk, each as plain state with verified transitions.

pub mod allocator;
pub mod counter;
pub mod queue;
pub mod wake;
pub mod input;
pub mod task;
pub mod executor;
pub mod timer;
pub mod keyboard;
pub mod memory;
