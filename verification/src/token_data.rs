use std::collections::HashMap;
use vstd::prelude::*;
use vstd::rwlock::{ReadHandle, RwLockPredicate};
use vstd::std_specs::iter::IteratorSpec;

verus! {

broadcast use vstd::std_specs::hash::group_hash_axioms;

/// `a + d` in the wrapping arithmetic of `usize`, for a step `d` of at most `usize::MAX`.
pub open spec fn wrap_add(a: usize, d: nat) -> usize
    recommends
        d <= usize::MAX,
{
    if a + d <= usize::MAX {
        (a + d) as usize
    } else {
        (a + d - usize::MAX - 1) as usize
    }
}

/// How many wrapping steps lead from `from` to `to`.
pub open spec fn wrap_distance(from: usize, to: usize) -> nat {
    if from <= to {
        (to - from) as nat
    } else {
        (to + usize::MAX + 1 - from) as nat
    }
}

/// `id` is the first identifier, counting up from `start` and wrapping around, that `used` does
/// not hold.
pub open spec fn first_free_from(used: Set<usize>, start: usize, id: usize) -> bool {
    &&& !used.contains(id)
    &&& forall|d: nat| d < wrap_distance(start, id) ==> used.contains(#[trigger] wrap_add(start, d))
}

/// `drained` lists each entry of `m` once, as (identifier, value), in some order.
pub open spec fn lists_entries<H>(drained: Seq<(usize, H)>, m: Map<usize, H>) -> bool {
    &&& drained.len() == m.len()
    &&& forall|i: int, j: int|
        0 <= i < drained.len() && 0 <= j < drained.len() && i != j ==> #[trigger] drained[i].0
            != #[trigger] drained[j].0
    &&& forall|i: int|
        0 <= i < drained.len() ==> m.contains_key(#[trigger] drained[i].0) && m[drained[i].0]
            == drained[i].1
    &&& forall|k: usize| m.contains_key(k) ==> exists|i: int| 0 <= i < drained.len() && #[trigger] drained[i].0 == k
}

/// A set of identifiers that holds at most `usize::MAX` of them leaves one identifier free.
pub proof fn lemma_free_id_exists(used: Set<usize>)
    requires
        used.finite(),
        used.len() <= usize::MAX,
    ensures
        exists|f: usize| !used.contains(f),
{
    if forall|f: usize| used.contains(f) {
        <usize as vstd::set_lib::FiniteRange>::range_properties(0, usize::MAX);
        let below = Set::<usize>::range(0, usize::MAX);
        let every = below.insert(usize::MAX);
        assert(!below.contains(usize::MAX));
        assert(every.len() == usize::MAX + 1);
        assert(every.subset_of(used));
        vstd::set_lib::lemma_len_subset(every, used);
    }
}

/// What a subscription attempt came to.
pub enum Subscribe<H> {
    /// The handler was stored under this identifier.
    Subscribed(usize),
    /// The token was canceled already: the handler is handed back to be invoked at once.
    AlreadyCanceled(H),
}

/// The shared state behind a cancellation token: whether it was canceled, and the handlers
/// that wait for the cancellation, each under an identifier of its own.
pub struct TokenData<H> {
    subscribers: HashMap<usize, H>,
    next_id: usize,
    canceled: bool,
}

impl<H> TokenData<H> {
    /// The waiting handlers by identifier.
    pub closed spec fn subscribers(&self) -> Map<usize, H> {
        self.subscribers@
    }

    /// The identifier that the next subscription tries first.
    pub closed spec fn next_id(&self) -> usize {
        self.next_id
    }

    /// Whether the token was canceled.
    pub closed spec fn canceled(&self) -> bool {
        self.canceled
    }

    /// The invariant: a canceled token has no waiting handler left.
    pub open spec fn wf(&self) -> bool {
        self.canceled() ==> self.subscribers().is_empty()
    }

    /// `post` is `pre` canceled, and `drained` what the cancellation hands back: every handler
    /// that was waiting, once, with its identifier (none at all when `pre` was canceled).
    pub open spec fn cancel_step(pre: Self, post: Self, drained: Seq<(usize, H)>) -> bool {
        &&& post.canceled()
        &&& post.subscribers() == Map::<usize, H>::empty()
        &&& post.next_id() == pre.next_id()
        &&& lists_entries(drained, pre.subscribers())
        &&& pre.canceled() ==> drained.len() == 0
    }

    /// `post` and `r` are what subscribing `h` to `pre` gives.
    pub open spec fn subscribe_step(pre: Self, post: Self, h: H, r: Subscribe<H>) -> bool {
        &&& post.canceled() == pre.canceled()
        &&& pre.canceled() ==> {
            &&& r == Subscribe::AlreadyCanceled(h)
            &&& post.subscribers() == pre.subscribers()
            &&& post.next_id() == pre.next_id()
        }
        &&& !pre.canceled() ==> match r {
            Subscribe::Subscribed(id) => {
                &&& first_free_from(pre.subscribers().dom(), pre.next_id(), id)
                &&& post.subscribers() == pre.subscribers().insert(id, h)
                &&& post.next_id() == wrap_add(id, 1)
            },
            Subscribe::AlreadyCanceled(_) => false,
        }
    }

    /// `post` and `r` are what taking the handler under `id` out of `pre` gives.
    pub open spec fn unsubscribe_step(pre: Self, post: Self, id: usize, r: Option<H>) -> bool {
        &&& post.canceled() == pre.canceled()
        &&& post.next_id() == pre.next_id()
        &&& post.subscribers() == pre.subscribers().remove(id)
        &&& r == if pre.subscribers().contains_key(id) {
            Some(pre.subscribers()[id])
        } else {
            None::<H>
        }
    }

    /// `post` and `r` are what storing `h` under `id` in `pre` gives.
    pub open spec fn update_step(pre: Self, post: Self, id: usize, h: H, r: Option<H>) -> bool {
        &&& post.canceled() == pre.canceled()
        &&& post.next_id() == pre.next_id()
        &&& pre.canceled() ==> r == Some(h) && post.subscribers() == pre.subscribers()
        &&& !pre.canceled() ==> r is None && post.subscribers() == pre.subscribers().insert(id, h)
    }

    /// A token that is not canceled and has no subscriber.
    pub fn new() -> (r: Self)
        ensures
            r.wf(),
            !r.canceled(),
            r.subscribers() == Map::<usize, H>::empty(),
            r.next_id() == 0,
    {
        TokenData { subscribers: HashMap::new(), next_id: 0, canceled: false }
    }

    /// Whether the token was canceled.
    pub fn is_canceled(&self) -> (r: bool)
        ensures
            r == self.canceled(),
    {
        self.canceled
    }

    /// Cancels the token. The first call marks the token canceled and hands back every waiting
    /// handler, each with its identifier, to be invoked; a later call finds nothing to do and
    /// hands back nothing.
    pub fn cancel(&mut self) -> (r: Vec<(usize, H)>)
        requires
            old(self).wf(),
        ensures
            final(self).wf(),
            Self::cancel_step(*old(self), *final(self), r@),
    {
        if self.canceled {
            assert(self.subscribers@.dom() =~= Set::<usize>::empty());
            assert(self.subscribers@ =~= Map::<usize, H>::empty());
            return Vec::new();
        }
        self.canceled = true;
        let mut waiting: HashMap<usize, H> = HashMap::new();
        std::mem::swap(&mut waiting, &mut self.subscribers);
        let ghost all = waiting@;
        let mut ids: Vec<usize> = Vec::new();
        for k in it: waiting.keys()
            invariant
                ids@.len() == it.index(),
                forall|j: int| 0 <= j < it.index() ==> ids@[j] == *it.seq()[j],
        {
            ids.push(*k);
        }
        proof {
            assert(ids@ =~= waiting.keys().remaining().unref());
        }
        let mut drained: Vec<(usize, H)> = Vec::new();
        let mut i: usize = 0;
        while i < ids.len()
            invariant
                0 <= i <= ids@.len(),
                ids@.no_duplicates(),
                ids@.to_set() == all.dom(),
                drained@.len() == i,
                forall|j: int| 0 <= j < i ==> #[trigger] drained@[j] == (ids@[j], all[ids@[j]]),
                forall|j: int|
                    i <= j < ids@.len() ==> waiting@.contains_key(#[trigger] ids@[j])
                        && waiting@[ids@[j]] == all[ids@[j]],
            decreases ids@.len() - i,
        {
            let k = ids[i];
            let removed = waiting.remove(&k);
            if let Some(v) = removed {
                drained.push((k, v));
            }
            assert forall|j: int| i + 1 <= j < ids@.len() implies waiting@.contains_key(
                #[trigger] ids@[j],
            ) && waiting@[ids@[j]] == all[ids@[j]] by {
                assert(ids@[j] != ids@[i as int]);
            }
            i = i + 1;
        }
        proof {
            assert forall|k: usize| all.contains_key(k) implies exists|i: int|
                0 <= i < drained@.len() && #[trigger] drained@[i].0 == k by {
                assert(ids@.to_set().contains(k));
                let j = choose|j: int| 0 <= j < ids@.len() && ids@[j] == k;
                assert(drained@[j].0 == k);
            }
            assert forall|i: int| 0 <= i < drained@.len() implies all.contains_key(
                #[trigger] drained@[i].0,
            ) && all[drained@[i].0] == drained@[i].1 by {
                assert(ids@.to_set().contains(ids@[i]));
            }
            ids@.unique_seq_to_set();
        }
        drained
    }
    /// Subscribes `h` to the cancellation. A token that is not canceled stores `h` under the
    /// first identifier, counting up from the next one and wrapping around, that is not in use,
    /// and moves its counter past it; a canceled token is left as it is and hands `h` back to
    /// be invoked at once.
    pub fn subscribe(&mut self, h: H) -> (r: Subscribe<H>)
        requires
            old(self).wf(),
        ensures
            final(self).wf(),
            Self::subscribe_step(*old(self), *final(self), h, r),
    {
        if self.canceled {
            return Subscribe::AlreadyCanceled(h);
        }
        let ghost used = self.subscribers@.dom();
        let ghost start = self.next_id;
        let ghost mut steps: nat = 0;
        proof {
            assert(vstd::std_specs::hash::spec_hash_map_len(&self.subscribers) == used.len());
            lemma_free_id_exists(used);
        }
        let ghost free = choose|f: usize| !used.contains(f);
        let ghost span = wrap_distance(start, free);
        assert(wrap_add(start, span) == free);
        loop
            invariant
                !self.canceled,
                !old(self).canceled,
                self.subscribers@.dom() == used,
                self.subscribers@ == old(self).subscribers@,
                start == old(self).next_id,
                !used.contains(free),
                span <= usize::MAX,
                wrap_add(start, span) == free,
                steps <= span,
                self.next_id == wrap_add(start, steps),
                forall|d: nat| d < steps ==> used.contains(#[trigger] wrap_add(start, d)),
            decreases span - steps,
        {
            let k = self.next_id;
            self.next_id = if k == usize::MAX {
                0
            } else {
                k + 1
            };
            if !self.subscribers.contains_key(&k) {
                self.subscribers.insert(k, h);
                assert(wrap_distance(start, k) == steps);
                return Subscribe::Subscribed(k);
            }
            proof {
                assert(k != free);
                assert(steps < span);
                steps = steps + 1;
            }
        }
    }

    /// Takes the handler stored under `id` out of the token, when there is one.
    pub fn unsubscribe(&mut self, id: usize) -> (r: Option<H>)
        requires
            old(self).wf(),
        ensures
            final(self).wf(),
            Self::unsubscribe_step(*old(self), *final(self), id, r),
    {
        self.subscribers.remove(&id)
    }

    /// Stores `h` under `id`, in place of what was stored there, while the token is not
    /// canceled; a canceled token is left as it is and hands `h` back to be invoked at once.
    pub fn update(&mut self, id: usize, h: H) -> (r: Option<H>)
        requires
            old(self).wf(),
        ensures
            final(self).wf(),
            Self::update_step(*old(self), *final(self), id, h, r),
    {
        if self.canceled {
            return Some(h);
        }
        self.subscribers.insert(id, h);
        None
    }
}

/// Canceling twice is canceling once: the second cancellation hands back nothing and leaves
/// the token as the first left it.
pub proof fn lemma_cancel_idempotent<H>(
    s0: TokenData<H>,
    s1: TokenData<H>,
    r1: Seq<(usize, H)>,
    s2: TokenData<H>,
    r2: Seq<(usize, H)>,
)
    requires
        s0.wf(),
        TokenData::cancel_step(s0, s1, r1),
        TokenData::cancel_step(s1, s2, r2),
    ensures
        r2.len() == 0,
        s2.canceled(),
        s2.subscribers() == s1.subscribers(),
        s2.next_id() == s1.next_id(),
{
}

/// Once canceled, a token stays canceled whatever is done to it, and a handler given to it by
/// a subscription or an update is handed straight back to be invoked.
pub proof fn lemma_canceled_is_final<H>(
    pre: TokenData<H>,
    h: H,
    id: usize,
    post_subscribe: TokenData<H>,
    r_subscribe: Subscribe<H>,
    post_update: TokenData<H>,
    r_update: Option<H>,
    post_unsubscribe: TokenData<H>,
    r_unsubscribe: Option<H>,
    post_cancel: TokenData<H>,
    r_cancel: Seq<(usize, H)>,
)
    requires
        pre.wf(),
        pre.canceled(),
        TokenData::subscribe_step(pre, post_subscribe, h, r_subscribe),
        TokenData::update_step(pre, post_update, id, h, r_update),
        TokenData::unsubscribe_step(pre, post_unsubscribe, id, r_unsubscribe),
        TokenData::cancel_step(pre, post_cancel, r_cancel),
    ensures
        post_subscribe.canceled() && r_subscribe == Subscribe::AlreadyCanceled(h),
        post_update.canceled() && r_update == Some(h),
        post_unsubscribe.canceled() && r_unsubscribe is None,
        post_cancel.canceled() && r_cancel.len() == 0,
{
}

/// A subscription never displaces another: the new identifier was free, and every handler
/// that was waiting still waits under its own identifier.
pub proof fn lemma_subscribe_keeps_others<H>(
    pre: TokenData<H>,
    post: TokenData<H>,
    h: H,
    id: usize,
)
    requires
        TokenData::subscribe_step(pre, post, h, Subscribe::Subscribed(id)),
    ensures
        !pre.subscribers().contains_key(id),
        post.subscribers().contains_key(id) && post.subscribers()[id] == h,
        forall|k: usize|
            #[trigger] pre.subscribers().contains_key(k) ==> post.subscribers().contains_key(k)
                && post.subscribers()[k] == pre.subscribers()[k],
        post.subscribers().len() == pre.subscribers().len() + 1,
{
}

/// A handler subscribed before the cancellation is handed back by it exactly once, under the
/// identifier that the subscription gave it.
pub proof fn lemma_subscriber_handed_back_once<H>(
    s0: TokenData<H>,
    s1: TokenData<H>,
    h: H,
    id: usize,
    s2: TokenData<H>,
    drained: Seq<(usize, H)>,
)
    requires
        s0.wf(),
        TokenData::subscribe_step(s0, s1, h, Subscribe::Subscribed(id)),
        TokenData::cancel_step(s1, s2, drained),
    ensures
        exists|i: int| 0 <= i < drained.len() && drained[i] == (id, h),
        forall|i: int, j: int|
            0 <= i < drained.len() && 0 <= j < drained.len() && drained[i].0 == id
                && drained[j].0 == id ==> i == j,
{
    assert(s1.subscribers().contains_key(id));
    let i = choose|i: int| 0 <= i < drained.len() && #[trigger] drained[i].0 == id;
    assert(drained[i] == (id, h));
}

/// Taking a subscription back undoes it: the handler comes back out, the waiting handlers are
/// those from before, and a later cancellation does not hand the handler back.
pub proof fn lemma_unsubscribe_undoes_subscribe<H>(
    s0: TokenData<H>,
    s1: TokenData<H>,
    h: H,
    id: usize,
    s2: TokenData<H>,
    r: Option<H>,
    s3: TokenData<H>,
    drained: Seq<(usize, H)>,
)
    requires
        s0.wf(),
        TokenData::subscribe_step(s0, s1, h, Subscribe::Subscribed(id)),
        TokenData::unsubscribe_step(s1, s2, id, r),
        TokenData::cancel_step(s2, s3, drained),
    ensures
        r == Some(h),
        s2.subscribers() == s0.subscribers(),
        forall|i: int| 0 <= i < drained.len() ==> drained[i].0 != id,
{
    assert(s2.subscribers() =~= s0.subscribers());
}

/// The canceled flag of the token state that `read` holds a read lock on.
pub fn read_canceled<H, P: RwLockPredicate<TokenData<H>>>(read: &ReadHandle<'_, TokenData<H>, P>) -> (r: bool)
    ensures
        r == read.view().canceled(),
{
    read.borrow().is_canceled()
}

/// One operation on a token.
pub enum TokenOp<H> {
    Cancel,
    Subscribe(H),
    Unsubscribe(usize),
    Update(usize, H),
}

/// `post` is what `op` makes of `pre`, whatever the operation hands back.
pub open spec fn op_step<H>(pre: TokenData<H>, post: TokenData<H>, op: TokenOp<H>) -> bool {
    match op {
        TokenOp::Cancel => exists|d: Seq<(usize, H)>| TokenData::cancel_step(pre, post, d),
        TokenOp::Subscribe(h) => exists|r: Subscribe<H>| TokenData::subscribe_step(pre, post, h, r),
        TokenOp::Unsubscribe(id) => exists|r: Option<H>|
            TokenData::unsubscribe_step(pre, post, id, r),
        TokenOp::Update(id, h) => exists|r: Option<H>| TokenData::update_step(pre, post, id, h, r),
    }
}

/// `states` and `ops` are a history of a token: operation `i` takes `states[i]` to
/// `states[i + 1]`.
pub open spec fn token_history<H>(states: Seq<TokenData<H>>, ops: Seq<TokenOp<H>>) -> bool {
    &&& states.len() == ops.len() + 1
    &&& forall|i: int| 0 <= i < ops.len() ==> op_step(states[i], states[i + 1], #[trigger] ops[i])
}

/// Over any history of a token that starts not canceled, the token is canceled after the
/// first `m` operations exactly when one of them is a cancellation; so once canceled, it stays
/// canceled.
pub proof fn lemma_canceled_iff_some_cancel<H>(
    states: Seq<TokenData<H>>,
    ops: Seq<TokenOp<H>>,
    m: int,
)
    requires
        token_history(states, ops),
        !states[0].canceled(),
        0 <= m <= ops.len(),
    ensures
        states[m].canceled() <==> exists|i: int| 0 <= i < m && #[trigger] ops[i] is Cancel,
    decreases m,
{
    if m == 0 {
        return;
    }
    let k = m - 1;
    lemma_canceled_iff_some_cancel(states, ops, k);
    assert(op_step(states[k], states[m], ops[k]));
    if ops[k] is Cancel {
        assert(states[m].canceled());
    } else {
        assert(states[m].canceled() == states[k].canceled());
        if exists|i: int| 0 <= i < m && #[trigger] ops[i] is Cancel {
            let i = choose|i: int| 0 <= i < m && #[trigger] ops[i] is Cancel;
            assert(i != k);
        }
    }
}

/// A subscription and a cancellation that race hand the handler back exactly once, in
/// either order. Subscribed first, the cancellation hands it back once, under its identifier;
/// canceled first, the subscription hands it straight back and stores nothing, and the
/// cancellation handed back only the handlers that were there before.
pub proof fn lemma_racing_subscribe_and_cancel<H>(
    s0: TokenData<H>,
    h: H,
    a1: TokenData<H>,
    a_sub: Subscribe<H>,
    a2: TokenData<H>,
    a_drained: Seq<(usize, H)>,
    b1: TokenData<H>,
    b_drained: Seq<(usize, H)>,
    b2: TokenData<H>,
    b_sub: Subscribe<H>,
)
    requires
        s0.wf(),
        !s0.canceled(),
        TokenData::subscribe_step(s0, a1, h, a_sub),
        TokenData::cancel_step(a1, a2, a_drained),
        TokenData::cancel_step(s0, b1, b_drained),
        TokenData::subscribe_step(b1, b2, h, b_sub),
    ensures
        a_sub matches Subscribe::Subscribed(id) && (exists|i: int|
            0 <= i < a_drained.len() && a_drained[i] == (id, h)) && (forall|i: int, j: int|
            0 <= i < a_drained.len() && 0 <= j < a_drained.len() && a_drained[i].0 == id
                && a_drained[j].0 == id ==> i == j),
        b_sub == Subscribe::AlreadyCanceled(h),
        b2.canceled() && b2.subscribers() == Map::<usize, H>::empty(),
        forall|i: int| 0 <= i < b_drained.len() ==> s0.subscribers().contains_key(
            #[trigger] b_drained[i].0,
        ),
{
    let id = a_sub->Subscribed_0;
    lemma_subscriber_handed_back_once(s0, a1, h, id, a2, a_drained);
}

/// Of two subscriptions, taking back the second leaves the first in place: the two get
/// different identifiers, the second handler comes back out, and the waiting handlers are
/// those after the first subscription.
pub proof fn lemma_unsubscribe_second_keeps_first<H>(
    s0: TokenData<H>,
    s1: TokenData<H>,
    a: H,
    ida: usize,
    s2: TokenData<H>,
    b: H,
    idb: usize,
    s3: TokenData<H>,
    back: Option<H>,
)
    requires
        s0.wf(),
        TokenData::subscribe_step(s0, s1, a, Subscribe::Subscribed(ida)),
        TokenData::subscribe_step(s1, s2, b, Subscribe::Subscribed(idb)),
        TokenData::unsubscribe_step(s2, s3, idb, back),
    ensures
        ida != idb,
        back == Some(b),
        s3.subscribers() == s1.subscribers(),
        s3.subscribers().contains_key(ida) && s3.subscribers()[ida] == a,
{
    assert(s1.subscribers().contains_key(ida));
    assert(s3.subscribers() =~= s1.subscribers());
}

/// A read of the canceled flag reports `true` exactly when one of the operations that led
/// from a fresh token to the state it reads was a cancellation: a fresh token, or one that
/// nothing canceled, reads `false`.
pub proof fn lemma_read_reports_some_cancel<H>(
    states: Seq<TokenData<H>>,
    ops: Seq<TokenOp<H>>,
    m: int,
    r: bool,
)
    requires
        token_history(states, ops),
        !states[0].canceled(),
        0 <= m <= ops.len(),
        r == states[m].canceled(),
    ensures
        r <==> exists|i: int| 0 <= i < m && #[trigger] ops[i] is Cancel,
{
    lemma_canceled_iff_some_cancel(states, ops, m);
}

} // verus!
