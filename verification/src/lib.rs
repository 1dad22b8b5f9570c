//! Building blocks of an async runtime that works directly with the data types of `std`:
//! cancellation tokens, the per-poll waker state of a task, and the bookkeeping that an event
//! queue does to schedule tasks and to shut itself down once every task has run to completion.

pub mod cancel;
pub mod cancellation;
pub mod mem;
pub mod overlapped;
pub mod scheduler;
pub mod sockaddr;
pub mod task;
pub mod timer;
pub mod token_data;

use vstd::prelude::*;

verus! {

/// The output of a future that can be canceled.
pub enum Status<T> {
    Completed(T),
    Canceled,
}

} // verus!
