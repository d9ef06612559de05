# os_by_rust

The logic of a small x86-64 teaching kernel, written in Verus and verified.

`src/` is the library. Each kernel subsystem is plain state with transitions
whose contracts are proved:

- `allocator`: `align_up` and the bump heap allocator;
- `input`: the keyboard scancode queue with its overflow policies and loss counters;
- `keyboard`: the scancode stream and the console's diagnostic commands;
- `task`, `executor`: task ids, tasks, the two priority ready queues, the task table
  and the load statistics;
- `timer`: the tick counter and sleeping tasks;
- `memory`: the four-level page-table walk;
- `queue`, `wake`, `counter`: the bounded queue of `crossbeam_queue`, wakers and the
  `futures_util` waker slot as the library uses them, and wrapping counters.

`app/` is ordinary Rust around it: the kernel's statics and locks, interrupt-safe
access, the `GlobalAlloc`, `Future`, `Stream` and `Wake` implementations, hardware
access through `x86_64`, serial output, and a host demonstration of the executor.

`tests/` exercises the library on concrete values.
