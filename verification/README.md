# slingshot

An async runtime that works directly with the data types of `std` (such as
`std::net::TcpStream`) and runs every future to completion unless the process is forced to exit.

## Layout

- `src/` is the verified library (Verus):
  - `token_data.rs`: the state behind a cancellation token (canceled flag, identifier counter,
    waiting handlers) with each operation as a state transition, and the laws that tie them
    together (cancel is idempotent, each subscriber is handed back exactly once, a canceled
    token stays canceled, unsubscribing undoes a subscription).
  - `cancellation.rs`, `cancel.rs`: the shared tokens (for wakers and for closures), which keep
    that state behind a verified reader-writer lock.
  - `task.rs`: the waker state of a task during one poll; a parked task is handed back exactly
    once.
  - `scheduler.rs`: the active-task counter that decides when an event queue shuts down, the
    round-robin choice of the worker that receives a ready task, and the worker count.
  - `timer.rs`, `overlapped.rs`, `mem.rs`, `sockaddr.rs`: the arithmetic and byte handling of
    delays, overlapped I/O buffers and accepted peer addresses.
- `app/` is ordinary Rust: the event loop, the epoll runtime (Linux) and the I/O completion
  port runtime (Windows), which make the system calls and take their decisions from `src/`.
- `tests/` runs the library on concrete values.
