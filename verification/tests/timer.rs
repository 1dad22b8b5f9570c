use slingshot::timer::{due_millis, timer_spec, TimerError};

const SEC_MAX: u64 = i64::MAX as u64;
const NSEC_MAX: u64 = i64::MAX as u64;

#[test]
fn zero_delay_needs_no_timer() {
    assert!(matches!(timer_spec(0, 0, SEC_MAX, NSEC_MAX), Ok(None)));
    assert!(matches!(due_millis(0), Ok(None)));
}

#[test]
fn timer_spec_keeps_seconds_and_nanos() {
    let s = timer_spec(5, 250, SEC_MAX, NSEC_MAX).ok().flatten().unwrap();
    assert_eq!((s.tv_sec, s.tv_nsec), (5, 250));
    let s = timer_spec(0, 1, SEC_MAX, NSEC_MAX).ok().flatten().unwrap();
    assert_eq!((s.tv_sec, s.tv_nsec), (0, 1));
}

#[test]
fn oversized_delay_is_refused() {
    assert!(matches!(timer_spec(u64::MAX, 0, SEC_MAX, NSEC_MAX), Err(TimerError::TooLarge)));
    assert!(matches!(timer_spec(SEC_MAX + 1, 0, SEC_MAX, NSEC_MAX), Err(TimerError::TooLarge)));
    assert!(timer_spec(SEC_MAX, 999_999_999, SEC_MAX, NSEC_MAX).is_ok());
    assert!(matches!(due_millis(u32::MAX as u128 * 1_000_000 + 1), Err(TimerError::TooLarge)));
}

#[test]
fn narrow_time_t_refuses_what_it_cannot_hold() {
    let max32 = i32::MAX as u64;
    assert!(matches!(timer_spec(max32 + 1, 0, max32, max32), Err(TimerError::TooLarge)));
    assert!(timer_spec(max32, 999_999_999, max32, max32).is_ok());
    assert!(matches!(timer_spec(1, u32::MAX, max32, max32), Err(TimerError::TooLarge)));
}

#[test]
fn due_millis_rounds_up() {
    assert!(matches!(due_millis(1), Ok(Some(1))));
    assert!(matches!(due_millis(500_000), Ok(Some(1))));
    assert!(matches!(due_millis(1_000_000), Ok(Some(1))));
    assert!(matches!(due_millis(1_000_001), Ok(Some(2))));
    assert!(matches!(due_millis(1_900_000), Ok(Some(2))));
    assert!(matches!(due_millis(u32::MAX as u128 * 1_000_000), Ok(Some(u32::MAX))));
}
