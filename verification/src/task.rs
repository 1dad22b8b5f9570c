use vstd::prelude::*;

verus! {

/// Where a polled task stands with respect to its waker.
pub enum FutureState<T> {
    /// The task is being polled right now.
    Polling,
    /// The task returned pending and is parked here until its waker fires.
    Pending(T),
    /// The waker fired (during the poll or after it).
    Waked,
}

/// The data behind the waker that is handed to a task for one poll.
///
/// The task itself is of type `T`; the event queue owns the task while it is polled and parks
/// it here when the poll returns pending.
pub struct WakerData<T> {
    state: FutureState<T>,
}

impl<T> WakerData<T> {
    /// The current state.
    pub closed spec fn state(&self) -> FutureState<T> {
        self.state
    }

    /// `post` and `r` are what parking `task` in `pre` gives.
    pub open spec fn set_pending_step(pre: Self, post: Self, task: T, r: Option<T>) -> bool {
        match pre.state() {
            FutureState::Polling => r is None && post.state() == FutureState::Pending(task),
            FutureState::Pending(_) => false,
            FutureState::Waked => r == Some(task) && post.state() == FutureState::<T>::Waked,
        }
    }

    /// `post` and `r` are what firing the waker of `pre` gives.
    pub open spec fn wake_step(pre: Self, post: Self, r: Option<T>) -> bool {
        &&& post.state() == FutureState::<T>::Waked
        &&& r == match pre.state() {
            FutureState::Pending(t) => Some(t),
            _ => None::<T>,
        }
    }

    /// Creates the data for a task that is about to be polled.
    pub fn new() -> (r: Self)
        ensures
            r.state() == FutureState::<T>::Polling,
    {
        WakerData { state: FutureState::Polling }
    }

    /// Whether a task is parked here already.
    pub fn is_pending(&self) -> (r: bool)
        ensures
            r == (self.state() is Pending),
    {
        match self.state {
            FutureState::Pending(_) => true,
            _ => false,
        }
    }

    /// Called when the poll returned pending: parks `task` until the waker fires, or hands it
    /// straight back (`Some`) when the waker already fired during the poll, in which case the
    /// task must be queued again at once.
    pub fn set_pending(&mut self, task: T) -> (r: Option<T>)
        requires
            !(old(self).state() is Pending),
        ensures
            Self::set_pending_step(*old(self), *final(self), task, r),
    {
        match self.state {
            FutureState::Polling => {
                self.state = FutureState::Pending(task);
                None
            },
            FutureState::Pending(_) => {
                proof {
                    assert(false);
                }
                None
            },
            FutureState::Waked => Some(task),
        }
    }

    /// Fires the waker. Returns the parked task (`Some`) when it has to be queued again; a
    /// waker that fires during the poll, or a second time, hands nothing back.
    pub fn wake(&mut self) -> (r: Option<T>)
        ensures
            Self::wake_step(*old(self), *final(self), r),
    {
        let mut state = FutureState::Waked;
        std::mem::swap(&mut state, &mut self.state);
        match state {
            FutureState::Pending(t) => Some(t),
            _ => None,
        }
    }
}

/// A task that returned pending is handed back exactly once, whether its waker fires before or
/// after the task is parked: woken after parking, the first wake hands it back and any further
/// wake hands back nothing; woken during the poll, parking hands it straight back.
pub proof fn lemma_task_handed_back_once<T>(
    fresh: WakerData<T>,
    task: T,
    parked: WakerData<T>,
    r_park: Option<T>,
    woken: WakerData<T>,
    r_wake: Option<T>,
    woken_again: WakerData<T>,
    r_wake_again: Option<T>,
    early: WakerData<T>,
    r_early: Option<T>,
    late: WakerData<T>,
    r_late: Option<T>,
)
    requires
        fresh.state() == FutureState::<T>::Polling,
        WakerData::set_pending_step(fresh, parked, task, r_park),
        WakerData::wake_step(parked, woken, r_wake),
        WakerData::wake_step(woken, woken_again, r_wake_again),
        WakerData::wake_step(fresh, early, r_early),
        WakerData::set_pending_step(early, late, task, r_late),
    ensures
        r_park is None && r_wake == Some(task) && r_wake_again is None,
        r_early is None && r_late == Some(task),
        woken_again.state() == FutureState::<T>::Waked,
        late.state() == FutureState::<T>::Waked,
{
}

/// One call on the waker data of a task: firing the waker, or parking the task.
pub enum WakerOp<T> {
    Wake,
    SetPending(T),
}

/// `states`, `ops` and `results` are a run of calls on waker data: call `i` takes
/// `states[i]` to `states[i + 1]` and gives `results[i]`.
pub open spec fn waker_run<T>(
    states: Seq<WakerData<T>>,
    ops: Seq<WakerOp<T>>,
    results: Seq<Option<T>>,
) -> bool {
    &&& states.len() == ops.len() + 1
    &&& results.len() == ops.len()
    &&& forall|i: int|
        0 <= i < ops.len() ==> match #[trigger] ops[i] {
            WakerOp::Wake => WakerData::wake_step(states[i], states[i + 1], results[i]),
            WakerOp::SetPending(t) => WakerData::set_pending_step(
                states[i],
                states[i + 1],
                t,
                results[i],
            ),
        }
}

/// Whether one of the first `m` calls fires the waker.
pub open spec fn any_wake<T>(ops: Seq<WakerOp<T>>, m: int) -> bool {
    exists|i: int| 0 <= i < m && #[trigger] ops[i] is Wake
}

/// Whether one of the first `m` calls parks the task.
pub open spec fn any_set_pending<T>(ops: Seq<WakerOp<T>>, m: int) -> bool {
    exists|i: int| 0 <= i < m && #[trigger] ops[i] is SetPending
}

/// How many of `results` hand a task back.
pub open spec fn count_some<T>(results: Seq<Option<T>>) -> nat
    decreases results.len(),
{
    if results.len() == 0 {
        0
    } else {
        count_some(results.drop_last()) + if results.last() is Some {
            1nat
        } else {
            0nat
        }
    }
}

proof fn lemma_waker_run_prefix<T>(
    states: Seq<WakerData<T>>,
    ops: Seq<WakerOp<T>>,
    results: Seq<Option<T>>,
    m: int,
)
    requires
        waker_run(states, ops, results),
        states[0].state() == FutureState::<T>::Polling,
        forall|i: int, j: int|
            0 <= i < ops.len() && 0 <= j < ops.len() && #[trigger] ops[i] is SetPending
                && #[trigger] ops[j] is SetPending ==> i == j,
        0 <= m <= ops.len(),
    ensures
        !any_set_pending(ops, m) && !any_wake(ops, m) ==> states[m].state()
            == FutureState::<T>::Polling,
        !any_set_pending(ops, m) && any_wake(ops, m) ==> states[m].state()
            == FutureState::<T>::Waked,
        any_set_pending(ops, m) && any_wake(ops, m) ==> states[m].state()
            == FutureState::<T>::Waked,
        forall|i: int, t: T|
            0 <= i < m && ops[i] == WakerOp::SetPending(t) && !any_wake(ops, m)
                ==> states[m].state() == FutureState::Pending(t),
        count_some(results.take(m)) == if any_set_pending(ops, m) && any_wake(ops, m) {
            1nat
        } else {
            0nat
        },
        forall|j: int, x: T|
            0 <= j < m && results[j] == Some(x) ==> exists|i: int|
                0 <= i < m && ops[i] == WakerOp::SetPending(x),
    decreases m,
{
    if m == 0 {
        assert(results.take(0) =~= Seq::<Option<T>>::empty());
        return;
    }
    let k = m - 1;
    lemma_waker_run_prefix(states, ops, results, k);
    assert(results.take(m).drop_last() =~= results.take(k));
    assert(results.take(m).last() == results[k]);
    let op = ops[k];
    match op {
        WakerOp::Wake => {
            assert(any_wake(ops, m));
            assert(any_set_pending(ops, m) == any_set_pending(ops, k)) by {
                if any_set_pending(ops, m) {
                    let i = choose|i: int| 0 <= i < m && #[trigger] ops[i] is SetPending;
                    assert(i != k);
                }
            }
            if any_set_pending(ops, k) && !any_wake(ops, k) {
                let i = choose|i: int| 0 <= i < k && #[trigger] ops[i] is SetPending;
                let t = ops[i]->SetPending_0;
                assert(ops[i] == WakerOp::SetPending(t));
                assert(states[k].state() == FutureState::Pending(t));
                assert(results[k] == Some(t));
            }
            assert forall|i: int, t: T|
                0 <= i < m && ops[i] == WakerOp::SetPending(t) && !any_wake(ops, m)
                    implies states[m].state() == FutureState::Pending(t) by {}
        },
        WakerOp::SetPending(t) => {
            assert(!any_set_pending(ops, k)) by {
                if any_set_pending(ops, k) {
                    let i = choose|i: int| 0 <= i < k && #[trigger] ops[i] is SetPending;
                    assert(ops[k] is SetPending);
                }
            }
            assert(any_set_pending(ops, m));
            assert(any_wake(ops, m) == any_wake(ops, k)) by {
                if any_wake(ops, m) {
                    let i = choose|i: int| 0 <= i < m && #[trigger] ops[i] is Wake;
                    assert(i != k);
                }
            }
            assert(ops[k] == WakerOp::SetPending(t));
            assert forall|i: int, u: T|
                0 <= i < m && ops[i] == WakerOp::SetPending(u) && !any_wake(ops, m)
                    implies states[m].state() == FutureState::Pending(u) by {
                if i < k {
                    assert(any_set_pending(ops, k)) by {
                        assert(ops[i] is SetPending);
                    }
                }
            }
        },
    }
    assert forall|j: int, x: T| 0 <= j < m && results[j] == Some(x) implies exists|i: int|
        0 <= i < m && ops[i] == WakerOp::SetPending(x) by {
        if j < k {
            let i = choose|i: int| 0 <= i < k && ops[i] == WakerOp::SetPending(x);
            assert(0 <= i < m && ops[i] == WakerOp::SetPending(x));
        } else {
            match ops[k] {
                WakerOp::Wake => {
                    let i = choose|i: int| 0 <= i < k && #[trigger] ops[i] is SetPending;
                    assert(ops[i] == WakerOp::SetPending(ops[i]->SetPending_0));
                    assert(states[k].state() == FutureState::Pending(ops[i]->SetPending_0));
                },
                WakerOp::SetPending(t) => {
                    assert(ops[k] == WakerOp::SetPending(x));
                },
            }
        }
    }
}

/// Over any run of calls on the waker data of one poll, with the task parked at most once,
/// the task is handed back at most once: exactly once when it was parked and the waker fired
/// (before or after), never otherwise, and what is handed back is the parked task.
pub proof fn lemma_task_handed_back_at_most_once<T>(
    states: Seq<WakerData<T>>,
    ops: Seq<WakerOp<T>>,
    results: Seq<Option<T>>,
)
    requires
        waker_run(states, ops, results),
        states[0].state() == FutureState::<T>::Polling,
        forall|i: int, j: int|
            0 <= i < ops.len() && 0 <= j < ops.len() && #[trigger] ops[i] is SetPending
                && #[trigger] ops[j] is SetPending ==> i == j,
    ensures
        count_some(results) <= 1,
        count_some(results) == 1 <==> any_set_pending(ops, ops.len() as int) && any_wake(
            ops,
            ops.len() as int,
        ),
        forall|j: int, x: T|
            0 <= j < results.len() && results[j] == Some(x) ==> exists|i: int|
                0 <= i < ops.len() && ops[i] == WakerOp::SetPending(x),
{
    lemma_waker_run_prefix(states, ops, results, ops.len() as int);
    assert(results.take(ops.len() as int) =~= results);
}

} // verus!
