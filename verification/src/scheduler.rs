use vstd::prelude::*;

verus! {

/// `a + 1` in the wrapping arithmetic of `isize`.
pub open spec fn wrapping_inc(a: isize) -> isize {
    if a == isize::MAX {
        isize::MIN
    } else {
        (a + 1) as isize
    }
}

/// `a - 1` in the wrapping arithmetic of `isize`.
pub open spec fn wrapping_dec(a: isize) -> isize {
    if a == isize::MIN {
        isize::MAX
    } else {
        (a - 1) as isize
    }
}

/// What the queue does after a task ran to completion.
pub enum TaskExit {
    /// Other tasks are still active: keep running.
    Continue,
    /// That was the last active task: the queue shuts down and accepts no task any more.
    Shutdown,
}

/// The number of active tasks of an event queue; negative once the queue shut down.
///
/// Each operation is the one that the queue performs on its atomic counter, applied as one
/// step.
pub struct TaskCounter {
    active: isize,
}

impl TaskCounter {
    /// The counter.
    pub closed spec fn active(&self) -> isize {
        self.active
    }

    /// Whether the queue shut down.
    pub open spec fn is_shut_down(&self) -> bool {
        self.active() < 0
    }

    /// `post` and `admitted` are what spawning a task on `pre` gives: the counter goes up by
    /// one, and the task is admitted unless the queue shut down.
    pub open spec fn spawn_step(pre: Self, post: Self, admitted: bool) -> bool {
        &&& post.active() == wrapping_inc(pre.active())
        &&& admitted == (pre.active() >= 0)
    }

    /// `post` and `exit` are what the completion of a task does to `pre`: the counter goes
    /// down by one; when it reaches zero the queue shuts down, which sets the counter to
    /// `isize::MIN`.
    pub open spec fn drop_task_step(pre: Self, post: Self, exit: TaskExit) -> bool {
        if pre.active() == 1 {
            &&& post.active() == isize::MIN
            &&& exit == TaskExit::Shutdown
        } else {
            &&& post.active() == wrapping_dec(pre.active())
            &&& exit == TaskExit::Continue
        }
    }

    /// A queue with no active task.
    pub fn new() -> (r: Self)
        ensures
            r.active() == 0,
    {
        TaskCounter { active: 0 }
    }

    /// Counts a task that is spawned; `false` when the queue shut down already, in which
    /// case the task must not run and is handed back to the caller.
    pub fn spawn(&mut self) -> (admitted: bool)
        ensures
            Self::spawn_step(*old(self), *final(self), admitted),
    {
        let prev = self.active;
        self.active = if prev == isize::MAX {
            isize::MIN
        } else {
            prev + 1
        };
        prev >= 0
    }

    /// Counts a task that ran to completion.
    pub fn drop_task(&mut self) -> (exit: TaskExit)
        ensures
            Self::drop_task_step(*old(self), *final(self), exit),
    {
        let prev = self.active;
        self.active = if prev == isize::MIN {
            isize::MAX
        } else {
            prev - 1
        };
        if prev != 1 {
            return TaskExit::Continue;
        }
        if self.active != 0 {
            return TaskExit::Continue;
        }
        self.active = isize::MIN;
        TaskExit::Shutdown
    }
}

/// Picks, round robin, which of the worker threads receives the next ready task.
pub struct RoundRobin {
    next: usize,
}

impl RoundRobin {
    /// The index that the next pick tries first.
    pub closed spec fn next(&self) -> usize {
        self.next
    }

    /// The index that a pick from `next` among `count` workers gives.
    pub open spec fn pick_of(next: usize, count: usize) -> usize {
        if next < count {
            next
        } else {
            0
        }
    }

    /// Starts with the first worker.
    pub fn new() -> (r: Self)
        ensures
            r.next() == 0,
    {
        RoundRobin { next: 0 }
    }

    /// The worker, among `count`, that receives the next ready task; the pick after it tries
    /// the following worker, and the one after the last worker goes back to the first.
    pub fn pick(&mut self, count: usize) -> (r: usize)
        requires
            count > 0,
        ensures
            r < count,
            r == Self::pick_of(old(self).next(), count),
            final(self).next() == r + 1,
    {
        loop
            invariant
                count > 0,
                old(self).next() < count ==> self.next == old(self).next(),
                old(self).next() >= count ==> self.next == old(self).next() || self.next == 0,
            decreases
                if self.next < count {
                    0int
                } else {
                    1int
                },
        {
            let i = self.next;
            self.next = if i == usize::MAX {
                0
            } else {
                i + 1
            };
            if i < count {
                return i;
            }
            let expected = if i == usize::MAX {
                0
            } else {
                i + 1
            };
            if self.next == expected {
                self.next = 0;
            }
        }
    }
}

/// The number of worker threads for the number of threads that the machine runs in parallel
/// (at least one). A single worker could dead-lock: it may block writing a ready task to its
/// own pipe while nothing reads it, so a single-thread machine still gets two.
pub fn worker_count(available: usize) -> (r: usize)
    requires
        available >= 1,
    ensures
        r == if available == 1 {
            2
        } else {
            available
        },
        r >= 2,
{
    if available == 1 {
        2
    } else {
        available
    }
}

/// A task spawned while another is active leaves the queue running when it completes, and the
/// count where it was.
pub proof fn lemma_spawn_then_complete(
    pre: TaskCounter,
    mid: TaskCounter,
    admitted: bool,
    post: TaskCounter,
    exit: TaskExit,
)
    requires
        1 <= pre.active() < isize::MAX,
        TaskCounter::spawn_step(pre, mid, admitted),
        TaskCounter::drop_task_step(mid, post, exit),
    ensures
        admitted,
        exit == TaskExit::Continue,
        post.active() == pre.active(),
{
}

/// The queue does not shut down while a task is still active: a completion with another task
/// left keeps it running, one task fewer.
pub proof fn lemma_no_shutdown_while_active(pre: TaskCounter, post: TaskCounter, exit: TaskExit)
    requires
        pre.active() >= 2,
        TaskCounter::drop_task_step(pre, post, exit),
    ensures
        exit == TaskExit::Continue,
        post.active() == pre.active() - 1,
        !post.is_shut_down(),
{
}

/// The queue shuts down when its last active task completes, and from then on refuses every
/// task (until `isize::MAX` refused spawns would wrap the counter around).
pub proof fn lemma_shutdown_refuses_spawns(
    pre: TaskCounter,
    down: TaskCounter,
    exit: TaskExit,
    refused: nat,
    before_spawn: TaskCounter,
    after_spawn: TaskCounter,
    admitted: bool,
)
    requires
        pre.active() == 1,
        TaskCounter::drop_task_step(pre, down, exit),
        refused < isize::MAX,
        before_spawn.active() == isize::MIN + refused,
        TaskCounter::spawn_step(before_spawn, after_spawn, admitted),
    ensures
        exit == TaskExit::Shutdown,
        down.active() == isize::MIN,
        !admitted,
        after_spawn.is_shut_down(),
        after_spawn.active() == isize::MIN + refused + 1,
{
}

/// Picks go round the workers in order: after worker `r` comes worker `r + 1`, and after the
/// last worker comes the first.
pub proof fn lemma_round_robin_cycles(pre: RoundRobin, post: RoundRobin, count: usize, r: usize)
    requires
        count > 0,
        r == RoundRobin::pick_of(pre.next(), count),
        post.next() == r + 1,
    ensures
        RoundRobin::pick_of(post.next(), count) == (r + 1) % (count as int),
{
    if r + 1 < count {
        vstd::arithmetic::div_mod::lemma_small_mod((r + 1) as nat, count as nat);
    } else {
        vstd::arithmetic::div_mod::lemma_mod_self_0(count as int);
    }
}

} // verus!
