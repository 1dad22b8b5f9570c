use slingshot::task::WakerData;

#[test]
fn parked_task_comes_back_on_wake() {
    let mut d = WakerData::new();
    assert_eq!(d.set_pending(7u32), None);
    assert_eq!(d.wake(), Some(7));
    assert_eq!(d.wake(), None);
}

#[test]
fn wake_during_poll_hands_task_back_at_parking() {
    let mut d = WakerData::new();
    assert_eq!(d.wake(), None);
    assert_eq!(d.set_pending(7u32), Some(7));
    assert_eq!(d.wake(), None);
}
