use crate::token_data::{read_canceled, Subscribe, TokenData};
use std::sync::Arc;
use std::task::Waker;
use vstd::prelude::*;
use vstd::rwlock::{RwLock, RwLockPredicate};

verus! {

#[verifier::external_type_specification]
#[verifier::external_body]
pub struct ExWaker(Waker);

/// Wakes the task behind `w` by calling `Waker::wake`, which consumes the waker. Nothing is
/// claimed of what waking does.
#[verifier::external_body]
pub(crate) fn wake_task(w: Waker) {
    w.wake()
}

/// The invariant that the lock of a token keeps: the token data is well formed.
pub struct WellFormed;

impl<H> RwLockPredicate<TokenData<H>> for WellFormed {
    open spec fn inv(self, v: TokenData<H>) -> bool {
        v.wf()
    }
}

/// An object to signal a cancellation to the tasks that subscribed their waker to it.
///
/// Clones share one state behind a lock, so a cancellation through any clone is seen by all.
/// What a call reads from the shared state depends on what the other clones did before; the
/// rules that each call applies to it are those of [`TokenData`].
#[derive(Clone)]
pub struct CancellationToken {
    data: Arc<RwLock<TokenData<Waker>, WellFormed>>,
}

/// A subscription of a waker to a [`CancellationToken`].
///
/// Dropping it does not end the subscription: call [`CancellationSubscription::unsubscribe`],
/// or the waker is still woken when the token is canceled.
pub struct CancellationSubscription {
    data: Arc<RwLock<TokenData<Waker>, WellFormed>>,
    id: usize,
}

impl CancellationToken {
    /// Whether `sub` is a subscription to this token.
    pub closed spec fn owns(&self, sub: &CancellationSubscription) -> bool {
        *self.data == *sub.data
    }

    /// A token that is not canceled and has no subscriber.
    pub fn new() -> (r: Self) {
        let data = TokenData::new();
        CancellationToken { data: Arc::new(RwLock::new(data, Ghost(WellFormed))) }
    }

    /// Whether the token was canceled, by this clone or another.
    /// What comes back depends on the state that the clones of the token share, which other
    /// threads change; the lock tells a call only that the state it finds is well formed.
    pub fn is_canceled(&self) -> (r: bool) {
        let read = self.data.acquire_read();
        let r = read_canceled(&read);
        read.release_read();
        r
    }

    /// Cancels the token and wakes every waker that waits for it. A token that was canceled
    /// already is left as it is.
    pub fn cancel(&self) {
        let (mut data, write) = self.data.acquire_write();
        let drained = data.cancel();
        write.release_write(data);
        let _ = wake_all(drained);
    }

    /// Subscribes `waker` to the cancellation. When the token was canceled already, `waker` is
    /// woken at once and there is no subscription (`None`). The order in which the wakers are
    /// woken on a cancellation is unspecified.
    pub fn subscribe(&self, waker: Waker) -> (r: Option<CancellationSubscription>)
        ensures
            r matches Some(sub) ==> self.owns(&sub),
    {
        let (mut data, write) = self.data.acquire_write();
        let outcome = data.subscribe(waker);
        write.release_write(data);
        self.subscription_for(outcome)
    }

    /// `r` is what [`CancellationToken::subscription_for`] gives for `outcome`.
    pub open spec fn settles(&self, outcome: Subscribe<Waker>, r: Option<CancellationSubscription>) -> bool {
        &&& (r is None <==> outcome is AlreadyCanceled)
        &&& outcome matches Subscribe::Subscribed(id) ==> (r matches Some(sub) && sub.id() == id
            && self.owns(&sub))
    }

    /// The subscription that a subscription to the state of this token came to: one to this
    /// token under the identifier that the state stored the waker under; or, for a token that
    /// was canceled already, `None`, after waking the waker that the state handed back.
    pub fn subscription_for(&self, outcome: Subscribe<Waker>) -> (r: Option<CancellationSubscription>)
        ensures
            self.settles(outcome, r),
    {
        match settle_subscribe(outcome) {
            Some(id) => Some(CancellationSubscription { data: self.data.clone(), id }),
            None => None,
        }
    }
}

/// Wakes the wakers that a cancellation handed back, one after another, and gives how many it
/// woke: all of them.
pub fn wake_all(drained: Vec<(usize, Waker)>) -> (n: usize)
    ensures
        n == drained@.len(),
{
    let total = drained.len();
    let mut rest = drained;
    let mut n: usize = 0;
    while rest.len() > 0
        invariant
            total == drained@.len(),
            n + rest@.len() == total,
        decreases rest.len(),
    {
        let (_, w) = rest.pop().unwrap();
        wake_task(w);
        n = n + 1;
    }
    n
}

/// What subscribing a waker to the state of a token came to, as the result of
/// [`CancellationToken::subscribe`]: the identifier that the waker was stored under; or, for a
/// token that was canceled already, `None`, after waking the waker that it handed back.
pub fn settle_subscribe(outcome: Subscribe<Waker>) -> (r: Option<usize>)
    ensures
        r is None <==> outcome is AlreadyCanceled,
        outcome matches Subscribe::Subscribed(id) ==> r == Some(id),
{
    match outcome {
        Subscribe::Subscribed(id) => Some(id),
        Subscribe::AlreadyCanceled(w) => {
            wake_task(w);
            None
        },
    }
}

impl Default for CancellationToken {
    fn default() -> (r: Self) {
        Self::new()
    }
}

impl CancellationSubscription {
    /// The identifier that the waker of this subscription is stored under.
    pub closed spec fn id(&self) -> usize {
        self.id
    }

    /// Takes the waker of this subscription, and only that one, out of the token state
    /// `data`.
    pub fn remove_from(&self, data: &mut TokenData<Waker>) -> (r: Option<Waker>)
        requires
            old(data).wf(),
        ensures
            final(data).wf(),
            TokenData::unsubscribe_step(*old(data), *final(data), self.id(), r),
    {
        data.unsubscribe(self.id)
    }

    /// Stores `waker` in the token state `data` under the identifier of this subscription, in
    /// place of its waker, while the state is not canceled; a canceled state hands it back.
    pub fn replace_in(&self, data: &mut TokenData<Waker>, waker: Waker) -> (r: Option<Waker>)
        requires
            old(data).wf(),
        ensures
            final(data).wf(),
            TokenData::update_step(*old(data), *final(data), self.id(), waker, r),
    {
        data.update(self.id, waker)
    }

    /// Replaces the subscribed waker with `waker`; when the token was canceled already,
    /// `waker` is woken at once instead. The subscription stays the one it was: to the same
    /// token, under the same identifier. Which of the two happens depends on the state that
    /// the clones of the token share, which only the lock's invariant describes to a call.
    pub fn update(&mut self, waker: Waker)
        ensures
            *final(self) == *old(self),
    {
        let (mut data, write) = self.data.acquire_write();
        let back = self.replace_in(&mut data, waker);
        write.release_write(data);
        if let Some(w) = back {
            wake_task(w);
        }
    }

    /// Ends the subscription: its waker is no longer woken by a cancellation.
    pub fn unsubscribe(self) {
        let (mut data, write) = self.data.acquire_write();
        let _ = self.remove_from(&mut data);
        write.release_write(data);
    }
}

/// A token's subscription hands back `None` exactly when the state it found was canceled;
/// otherwise it is a subscription to that token under a fresh identifier, under which the
/// state now holds the subscriber's own waker, all other wakers staying as they were.
pub proof fn lemma_subscription_holds_its_waker(
    tok: CancellationToken,
    pre: TokenData<Waker>,
    post: TokenData<Waker>,
    w: Waker,
    outcome: Subscribe<Waker>,
    r: Option<CancellationSubscription>,
)
    requires
        pre.wf(),
        TokenData::subscribe_step(pre, post, w, outcome),
        tok.settles(outcome, r),
    ensures
        r is None <==> pre.canceled(),
        r is None ==> post.subscribers() == pre.subscribers(),
        r matches Some(sub) ==> tok.owns(&sub) && !pre.subscribers().contains_key(sub.id())
            && post.subscribers() == pre.subscribers().insert(sub.id(), w),
{
}

/// Unsubscribing ends the subscription's own subscription and no other: its waker comes back
/// out, the state holds the wakers it held before the subscription, and a later cancellation
/// does not wake it.
pub proof fn lemma_unsubscribe_removes_own_waker(
    tok: CancellationToken,
    pre: TokenData<Waker>,
    post: TokenData<Waker>,
    w: Waker,
    outcome: Subscribe<Waker>,
    sub: CancellationSubscription,
    after: TokenData<Waker>,
    back: Option<Waker>,
    fin: TokenData<Waker>,
    drained: Seq<(usize, Waker)>,
)
    requires
        pre.wf(),
        !pre.canceled(),
        TokenData::subscribe_step(pre, post, w, outcome),
        tok.settles(outcome, Some(sub)),
        TokenData::unsubscribe_step(post, after, sub.id(), back),
        TokenData::cancel_step(after, fin, drained),
    ensures
        back == Some(w),
        after.subscribers() == pre.subscribers(),
        forall|i: int| 0 <= i < drained.len() ==> drained[i].0 != sub.id(),
        forall|k: usize|
            pre.subscribers().contains_key(k) ==> exists|i: int|
                0 <= i < drained.len() && #[trigger] drained[i].0 == k,
{
    assert(after.subscribers() =~= pre.subscribers());
}

/// Updating replaces the subscription's own waker and no other: every other identifier keeps
/// its waker, and a later cancellation wakes the new waker once, under the subscription's
/// identifier.
pub proof fn lemma_update_replaces_own_waker(
    tok: CancellationToken,
    pre: TokenData<Waker>,
    post: TokenData<Waker>,
    w: Waker,
    outcome: Subscribe<Waker>,
    sub: CancellationSubscription,
    w2: Waker,
    after: TokenData<Waker>,
    back: Option<Waker>,
    fin: TokenData<Waker>,
    drained: Seq<(usize, Waker)>,
)
    requires
        pre.wf(),
        !pre.canceled(),
        TokenData::subscribe_step(pre, post, w, outcome),
        tok.settles(outcome, Some(sub)),
        TokenData::update_step(post, after, sub.id(), w2, back),
        TokenData::cancel_step(after, fin, drained),
    ensures
        back is None,
        after.subscribers() == pre.subscribers().insert(sub.id(), w2),
        forall|k: usize|
            k != sub.id() ==> (after.subscribers().contains_key(k) == pre.subscribers().contains_key(
                k,
            ) && (pre.subscribers().contains_key(k) ==> after.subscribers()[k]
                == pre.subscribers()[k])),
        exists|i: int| 0 <= i < drained.len() && drained[i] == (sub.id(), w2),
        forall|i: int, j: int|
            0 <= i < drained.len() && 0 <= j < drained.len() && drained[i].0 == sub.id()
                && drained[j].0 == sub.id() ==> i == j,
{
    assert(after.subscribers() =~= pre.subscribers().insert(sub.id(), w2));
    assert(after.subscribers().contains_key(sub.id()));
    let i = choose|i: int| 0 <= i < drained.len() && #[trigger] drained[i].0 == sub.id();
    assert(drained[i] == (sub.id(), w2));
}

/// A cancellation wakes every waker that waited when it was called, each once: as many as
/// there were, with their identifiers.
pub proof fn lemma_cancel_wakes_every_waiting_waker(
    pre: TokenData<Waker>,
    post: TokenData<Waker>,
    drained: Seq<(usize, Waker)>,
    woken: nat,
)
    requires
        pre.wf(),
        TokenData::cancel_step(pre, post, drained),
        woken == drained.len(),
    ensures
        woken == pre.subscribers().len(),
        forall|k: usize|
            #[trigger] pre.subscribers().contains_key(k) <==> exists|i: int|
                0 <= i < drained.len() && drained[i].0 == k,
        forall|i: int|
            0 <= i < drained.len() ==> pre.subscribers()[drained[i].0] == #[trigger] drained[i].1,
{
}

} // verus!
