use slingshot::cancellation::CancellationToken;
use std::sync::atomic::{AtomicUsize, Ordering};
use std::sync::Arc;
use std::task::{Wake, Waker};

struct Counter(AtomicUsize);

impl Wake for Counter {
    fn wake(self: Arc<Self>) {
        self.0.fetch_add(1, Ordering::SeqCst);
    }
}

fn counted() -> (Arc<Counter>, Waker) {
    let c = Arc::new(Counter(AtomicUsize::new(0)));
    let w = Waker::from(c.clone());
    (c, w)
}

fn wakes(c: &Counter) -> usize {
    c.0.load(Ordering::SeqCst)
}

#[test]
fn cancel_wakes_each_subscriber_once() {
    let ct = CancellationToken::new();
    let (c1, w1) = counted();
    let (c2, w2) = counted();
    let s1 = ct.subscribe(w1);
    let s2 = ct.subscribe(w2);
    assert!(s1.is_some() && s2.is_some());
    assert!(!ct.is_canceled());
    ct.cancel();
    assert!(ct.is_canceled());
    assert_eq!((wakes(&c1), wakes(&c2)), (1, 1));
    ct.cancel();
    assert_eq!((wakes(&c1), wakes(&c2)), (1, 1));
}

#[test]
fn subscribe_after_cancel_wakes_at_once() {
    let ct = CancellationToken::new();
    ct.cancel();
    let (c, w) = counted();
    assert!(ct.subscribe(w).is_none());
    assert_eq!(wakes(&c), 1);
}

#[test]
fn clones_share_the_cancellation() {
    let ct = CancellationToken::new();
    let other = ct.clone();
    let (c, w) = counted();
    let _s = ct.subscribe(w);
    other.cancel();
    assert!(ct.is_canceled());
    assert_eq!(wakes(&c), 1);
}

#[test]
fn unsubscribed_waker_is_not_woken() {
    let ct = CancellationToken::new();
    let (c, w) = counted();
    let s = ct.subscribe(w).unwrap();
    s.unsubscribe();
    ct.cancel();
    assert_eq!(wakes(&c), 0);
}

#[test]
fn update_replaces_the_waker() {
    let ct = CancellationToken::new();
    let (c1, w1) = counted();
    let (c2, w2) = counted();
    let mut s = ct.subscribe(w1).unwrap();
    s.update(w2);
    ct.cancel();
    assert_eq!((wakes(&c1), wakes(&c2)), (0, 1));
}

#[test]
fn update_after_cancel_wakes_at_once() {
    let ct = CancellationToken::new();
    let (_c1, w1) = counted();
    let (c2, w2) = counted();
    let mut s = ct.subscribe(w1).unwrap();
    ct.cancel();
    s.update(w2);
    assert_eq!(wakes(&c2), 1);
}

#[test]
fn default_token_is_not_canceled() {
    assert!(!CancellationToken::default().is_canceled());
}

use slingshot::cancellation::settle_subscribe;
use slingshot::token_data::Subscribe;

#[test]
fn settled_subscription_keeps_its_id() {
    let (c, w) = counted();
    assert_eq!(settle_subscribe(Subscribe::Subscribed(4)), Some(4));
    drop(w);
    assert_eq!(wakes(&c), 0);
}

#[test]
fn settled_cancellation_wakes_the_waker() {
    let (c, w) = counted();
    assert_eq!(settle_subscribe(Subscribe::AlreadyCanceled(w)), None);
    assert_eq!(wakes(&c), 1);
}
