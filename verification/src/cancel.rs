use crate::cancellation::{wake_task, WellFormed};
use crate::token_data::{
    lemma_unsubscribe_second_keeps_first, read_canceled, Subscribe, TokenData,
};
use std::sync::{Arc, Mutex};
use std::task::Waker;
use vstd::prelude::*;
use vstd::rwlock::RwLock;

verus! {

#[verifier::external_type_specification]
#[verifier::external_body]
#[verifier::reject_recursive_types(T)]
pub struct ExMutex<T: ?Sized>(Mutex<T>);

/// Calls the closure `f` (`FnOnce::call_once`). Nothing is claimed of what it does.
#[verifier::external_body]
fn call_once<F: FnOnce()>(f: F) {
    f()
}

/// Puts `f` in a `Mutex` (`Mutex::new`), which makes it shareable between threads although
/// only one of them ever takes it out. Nothing is claimed of the mutex.
#[verifier::external_body]
fn lock_up<F>(f: F) -> Mutex<F> {
    Mutex::new(f)
}

/// Takes the closure back out of its `Mutex` (`Mutex::into_inner`). The mutex is never locked,
/// so it cannot be poisoned and the unwrap cannot fail. Nothing is claimed of the value.
#[verifier::external_body]
fn unlock<F>(m: Mutex<F>) -> F {
    m.into_inner().unwrap()
}

/// A closure that runs once, on whichever thread cancels. The token shares its waiting
/// closures between threads, so they are held in a `Mutex`, which any `Send` closure can be.
pub trait SendOnce: Send + Sync {
    /// Runs the closure.
    fn run(self: Box<Self>);
}

impl<F: FnOnce() + Send> SendOnce for Mutex<F> {
    fn run(self: Box<Self>) {
        call_once(unlock(*self))
    }
}

/// A closure that waits for a cancellation.
pub type Handler = Box<dyn SendOnce>;

/// An object to signal a cancellation to the closures that subscribed to it.
///
/// Clones share one state behind a lock, so a cancellation through any clone is seen by all.
/// What a call reads from the shared state depends on what the other clones did before; the
/// rules that each call applies to it are those of [`TokenData`].
#[derive(Clone)]
pub struct CancellationToken {
    data: Arc<RwLock<TokenData<Handler>, WellFormed>>,
}

/// A subscription of a closure to a [`CancellationToken`].
///
/// Dropping it does not end the subscription: call [`SubscriptionHandle::unsubscribe`], or the
/// closure still runs when the token is canceled.
pub struct SubscriptionHandle {
    data: Arc<RwLock<TokenData<Handler>, WellFormed>>,
    id: usize,
}

impl CancellationToken {
    /// Whether `handle` is a subscription to this token.
    pub closed spec fn owns(&self, handle: &SubscriptionHandle) -> bool {
        *self.data == *handle.data
    }

    /// A token that is not canceled and has no subscriber.
    pub fn new() -> (r: Self) {
        let data = TokenData::new();
        CancellationToken { data: Arc::new(RwLock::new(data, Ghost(WellFormed))) }
    }

    /// Whether the token was canceled, by this clone or another.
    /// What comes back depends on the state that the clones of the token share, which other
    /// threads change; the lock tells a call only that the state it finds is well formed.
    pub fn is_canceled(&self) -> (r: bool) {
        let read = self.data.acquire_read();
        let r = read_canceled(&read);
        read.release_read();
        r
    }

    /// Cancels the token and runs every closure that waits for it. A token that was canceled
    /// already is left as it is.
    pub fn cancel(&self) {
        let (mut data, write) = self.data.acquire_write();
        let drained = data.cancel();
        write.release_write(data);
        let _ = run_all(drained);
    }

    /// Subscribes `h` to the cancellation. When the token was canceled already, `h` runs at
    /// once and there is no subscription (`None`). The order in which the closures run on a
    /// cancellation is unspecified.
    pub fn subscribe<H: FnOnce() + Send + 'static>(&self, h: H) -> (r: Option<SubscriptionHandle>)
        ensures
            r matches Some(handle) ==> self.owns(&handle),
    {
        let boxed: Handler = Box::new(lock_up(h));
        let (mut data, write) = self.data.acquire_write();
        let outcome = data.subscribe(boxed);
        write.release_write(data);
        self.handle_for(outcome)
    }

    /// `r` is what [`CancellationToken::handle_for`] gives for `outcome`.
    pub open spec fn settles(&self, outcome: Subscribe<Handler>, r: Option<SubscriptionHandle>) -> bool {
        &&& (r is None <==> outcome is AlreadyCanceled)
        &&& outcome matches Subscribe::Subscribed(id) ==> (r matches Some(handle) && handle.id()
            == id && self.owns(&handle))
    }

    /// The handle that a subscription to the state of this token came to: one to this token
    /// under the identifier that the state stored the closure under; or, for a token that was
    /// canceled already, `None`, after running the closure that the state handed back.
    pub fn handle_for(&self, outcome: Subscribe<Handler>) -> (r: Option<SubscriptionHandle>)
        ensures
            self.settles(outcome, r),
    {
        match settle_subscribe(outcome) {
            Some(id) => Some(SubscriptionHandle { data: self.data.clone(), id }),
            None => None,
        }
    }
}

/// Runs the closures that a cancellation handed back, one after another, and gives how many
/// it ran: all of them.
pub fn run_all(drained: Vec<(usize, Handler)>) -> (n: usize)
    ensures
        n == drained@.len(),
{
    let total = drained.len();
    let mut rest = drained;
    let mut n: usize = 0;
    while rest.len() > 0
        invariant
            total == drained@.len(),
            n + rest@.len() == total,
        decreases rest.len(),
    {
        let (_, h) = rest.pop().unwrap();
        h.run();
        n = n + 1;
    }
    n
}

/// What subscribing a closure to the state of a token came to, as the result of
/// [`CancellationToken::subscribe`]: the identifier that the closure was stored under; or, for
/// a token that was canceled already, `None`, after running the closure that it handed back.
pub fn settle_subscribe(outcome: Subscribe<Handler>) -> (r: Option<usize>)
    ensures
        r is None <==> outcome is AlreadyCanceled,
        outcome matches Subscribe::Subscribed(id) ==> r == Some(id),
{
    match outcome {
        Subscribe::Subscribed(id) => Some(id),
        Subscribe::AlreadyCanceled(h) => {
            h.run();
            None
        },
    }
}

impl Default for CancellationToken {
    fn default() -> (r: Self) {
        Self::new()
    }
}

impl SubscriptionHandle {
    /// The identifier that the closure of this subscription is stored under.
    pub closed spec fn id(&self) -> usize {
        self.id
    }

    /// Takes the closure of this subscription, and only that one, out of the token state
    /// `data`.
    pub fn remove_from(&self, data: &mut TokenData<Handler>) -> (r: Option<Handler>)
        requires
            old(data).wf(),
        ensures
            final(data).wf(),
            TokenData::unsubscribe_step(*old(data), *final(data), self.id(), r),
    {
        data.unsubscribe(self.id)
    }

    /// Ends the subscription: its closure no longer runs on a cancellation.
    pub fn unsubscribe(self) {
        let (mut data, write) = self.data.acquire_write();
        let _ = self.remove_from(&mut data);
        write.release_write(data);
    }
}

/// Subscribes `waker` to the cancellation of `ct`, when there is a token: the subscription
/// wakes the task when the token is canceled, and a token that was canceled already wakes it
/// at once (and gives no subscription).
pub fn watch_cancel(waker: Waker, ct: &Option<CancellationToken>) -> (r: Option<SubscriptionHandle>)
    ensures
        ct is None ==> r is None,
        r matches Some(handle) ==> (ct matches Some(t) && t.owns(&handle)),
{
    match ct {
        Some(t) => t.subscribe(move || wake_task(waker)),
        None => None,
    }
}

/// A token's subscription hands back `None` exactly when the state it found was canceled;
/// otherwise it is a handle to that token under a fresh identifier, under which the state now
/// holds the subscriber's own closure, all other closures staying as they were.
pub proof fn lemma_handle_holds_its_closure(
    tok: CancellationToken,
    pre: TokenData<Handler>,
    post: TokenData<Handler>,
    h: Handler,
    outcome: Subscribe<Handler>,
    r: Option<SubscriptionHandle>,
)
    requires
        pre.wf(),
        TokenData::subscribe_step(pre, post, h, outcome),
        tok.settles(outcome, r),
    ensures
        r is None <==> pre.canceled(),
        r is None ==> post.subscribers() == pre.subscribers(),
        r matches Some(handle) ==> tok.owns(&handle) && !pre.subscribers().contains_key(
            handle.id(),
        ) && post.subscribers() == pre.subscribers().insert(handle.id(), h),
{
}

/// Two subscriptions to one token get handles with different identifiers, so ending one
/// never ends the other.
pub proof fn lemma_handles_are_distinct(
    tok: CancellationToken,
    s0: TokenData<Handler>,
    s1: TokenData<Handler>,
    a: Handler,
    oa: Subscribe<Handler>,
    ha: SubscriptionHandle,
    s2: TokenData<Handler>,
    b: Handler,
    ob: Subscribe<Handler>,
    hb: SubscriptionHandle,
    s3: TokenData<Handler>,
    back: Option<Handler>,
)
    requires
        s0.wf(),
        !s0.canceled(),
        TokenData::subscribe_step(s0, s1, a, oa),
        tok.settles(oa, Some(ha)),
        TokenData::subscribe_step(s1, s2, b, ob),
        tok.settles(ob, Some(hb)),
        TokenData::unsubscribe_step(s2, s3, hb.id(), back),
    ensures
        ha.id() != hb.id(),
        back is Some,
        s3.subscribers().dom() == s1.subscribers().dom(),
        s3.subscribers().contains_key(ha.id()),
{
    assert(oa is Subscribed && ob is Subscribed);
    let ida = oa->Subscribed_0;
    let idb = ob->Subscribed_0;
    assert(ha.id() == ida && hb.id() == idb);
    lemma_unsubscribe_second_keeps_first(s0, s1, a, ida, s2, b, idb, s3, back);
}

/// A cancellation runs every closure that waited when it was called, each once: as many as
/// there were, with their identifiers.
pub proof fn lemma_cancel_runs_every_waiting_closure(
    pre: TokenData<Handler>,
    post: TokenData<Handler>,
    drained: Seq<(usize, Handler)>,
    ran: nat,
)
    requires
        pre.wf(),
        TokenData::cancel_step(pre, post, drained),
        ran == drained.len(),
    ensures
        ran == pre.subscribers().len(),
        forall|k: usize|
            #[trigger] pre.subscribers().contains_key(k) <==> exists|i: int|
                0 <= i < drained.len() && drained[i].0 == k,
        forall|i: int|
            0 <= i < drained.len() ==> pre.subscribers()[drained[i].0] == #[trigger] drained[i].1,
{
}

} // verus!
