use slingshot::cancel::{watch_cancel, CancellationToken};
use std::sync::atomic::{AtomicUsize, Ordering};
use std::cell::Cell;
use std::sync::{Arc, Mutex};
use std::task::{Wake, Waker};

fn counter() -> Arc<AtomicUsize> {
    Arc::new(AtomicUsize::new(0))
}

fn bump(c: &Arc<AtomicUsize>) -> impl FnOnce() + Send + 'static {
    let c = c.clone();
    move || {
        c.fetch_add(1, Ordering::SeqCst);
    }
}

fn runs(c: &AtomicUsize) -> usize {
    c.load(Ordering::SeqCst)
}

#[test]
fn cancel_runs_each_closure_once() {
    let ct = CancellationToken::new();
    let a = counter();
    let b = counter();
    assert!(ct.subscribe(bump(&a)).is_some());
    assert!(ct.subscribe(bump(&b)).is_some());
    ct.cancel();
    ct.cancel();
    assert!(ct.is_canceled());
    assert_eq!((runs(&a), runs(&b)), (1, 1));
}

#[test]
fn closure_runs_at_once_after_cancel() {
    let ct = CancellationToken::default();
    ct.cancel();
    let a = counter();
    assert!(ct.subscribe(bump(&a)).is_none());
    assert_eq!(runs(&a), 1);
}

#[test]
fn unsubscribed_closure_does_not_run() {
    let ct = CancellationToken::new();
    let a = counter();
    ct.subscribe(bump(&a)).unwrap().unsubscribe();
    ct.cancel();
    assert_eq!(runs(&a), 0);
}

struct Flag(AtomicUsize);

impl Wake for Flag {
    fn wake(self: Arc<Self>) {
        self.0.fetch_add(1, Ordering::SeqCst);
    }
}

#[test]
fn watch_cancel_without_token_watches_nothing() {
    let f = Arc::new(Flag(AtomicUsize::new(0)));
    assert!(watch_cancel(Waker::from(f.clone()), &None).is_none());
    assert_eq!(f.0.load(Ordering::SeqCst), 0);
}

#[test]
fn watch_cancel_wakes_on_cancel() {
    let ct = CancellationToken::new();
    let f = Arc::new(Flag(AtomicUsize::new(0)));
    let h = watch_cancel(Waker::from(f.clone()), &Some(ct.clone()));
    assert!(h.is_some());
    assert_eq!(f.0.load(Ordering::SeqCst), 0);
    ct.cancel();
    assert_eq!(f.0.load(Ordering::SeqCst), 1);
}

#[test]
fn watch_cancel_on_canceled_token_wakes_at_once() {
    let ct = CancellationToken::new();
    ct.cancel();
    let f = Arc::new(Flag(AtomicUsize::new(0)));
    assert!(watch_cancel(Waker::from(f.clone()), &Some(ct)).is_none());
    assert_eq!(f.0.load(Ordering::SeqCst), 1);
}

use slingshot::cancel::settle_subscribe;
use slingshot::token_data::Subscribe;

#[test]
fn settled_cancellation_runs_the_closure() {
    let a = counter();
    assert_eq!(settle_subscribe(Subscribe::AlreadyCanceled(Box::new(Mutex::new(bump(&a))))), None);
    assert_eq!(runs(&a), 1);
    assert_eq!(settle_subscribe(Subscribe::Subscribed(3)), Some(3));
}

#[test]
fn send_only_closure_is_accepted() {
    let ct = CancellationToken::new();
    let a = counter();
    let c = a.clone();
    let local = Cell::new(1usize);
    let h = ct.subscribe(move || {
        c.fetch_add(local.get(), Ordering::SeqCst);
    });
    assert!(h.is_some());
    ct.cancel();
    assert_eq!(runs(&a), 1);
}
