use slingshot::token_data::{Subscribe, TokenData};

fn subscribed(r: Subscribe<&'static str>) -> usize {
    match r {
        Subscribe::Subscribed(id) => id,
        Subscribe::AlreadyCanceled(h) => panic!("handler {h} was handed back"),
    }
}

fn sorted(mut v: Vec<(usize, &'static str)>) -> Vec<(usize, &'static str)> {
    v.sort();
    v
}

#[test]
fn new_token_is_not_canceled() {
    let t: TokenData<&'static str> = TokenData::new();
    assert!(!t.is_canceled());
}

#[test]
fn subscriptions_get_consecutive_ids() {
    let mut t = TokenData::new();
    assert_eq!(subscribed(t.subscribe("a")), 0);
    assert_eq!(subscribed(t.subscribe("b")), 1);
    assert_eq!(subscribed(t.subscribe("c")), 2);
}

#[test]
fn cancel_hands_back_every_subscriber_once() {
    let mut t = TokenData::new();
    let a = subscribed(t.subscribe("a"));
    let b = subscribed(t.subscribe("b"));
    let drained = t.cancel();
    assert!(t.is_canceled());
    assert_eq!(sorted(drained), vec![(a, "a"), (b, "b")]);
}

#[test]
fn cancel_twice_hands_back_nothing() {
    let mut t = TokenData::new();
    subscribed(t.subscribe("a"));
    assert_eq!(t.cancel().len(), 1);
    assert_eq!(t.cancel().len(), 0);
    assert!(t.is_canceled());
}

#[test]
fn subscribe_after_cancel_hands_handler_back() {
    let mut t = TokenData::new();
    t.cancel();
    match t.subscribe("late") {
        Subscribe::AlreadyCanceled(h) => assert_eq!(h, "late"),
        Subscribe::Subscribed(id) => panic!("subscribed as {id} after the cancellation"),
    }
    assert_eq!(t.cancel().len(), 0);
}

#[test]
fn unsubscribe_removes_the_handler() {
    let mut t = TokenData::new();
    let a = subscribed(t.subscribe("a"));
    let b = subscribed(t.subscribe("b"));
    assert_eq!(t.unsubscribe(a), Some("a"));
    assert_eq!(t.unsubscribe(a), None);
    assert_eq!(sorted(t.cancel()), vec![(b, "b")]);
}

#[test]
fn freed_id_is_not_reused_before_the_counter_wraps() {
    let mut t = TokenData::new();
    let a = subscribed(t.subscribe("a"));
    subscribed(t.subscribe("b"));
    t.unsubscribe(a);
    assert_eq!(subscribed(t.subscribe("c")), 2);
}

#[test]
fn update_replaces_the_handler() {
    let mut t = TokenData::new();
    let a = subscribed(t.subscribe("a"));
    assert_eq!(t.update(a, "a2"), None);
    assert_eq!(sorted(t.cancel()), vec![(a, "a2")]);
}

#[test]
fn update_after_cancel_hands_handler_back() {
    let mut t = TokenData::new();
    let a = subscribed(t.subscribe("a"));
    t.cancel();
    assert_eq!(t.update(a, "a2"), Some("a2"));
    assert_eq!(t.cancel().len(), 0);
}
