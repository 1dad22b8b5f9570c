use vstd::prelude::*;

verus! {

/// Why a delay cannot be armed.
pub enum TimerError {
    /// The duration does not fit what the timer takes.
    TooLarge,
}

/// The expiry of a one-shot relative `timerfd`, as the fields of its `itimerspec::it_value`;
/// each fits the bound that [`timer_spec`] was given for it.
pub struct TimerSpec {
    pub tv_sec: u64,
    pub tv_nsec: u32,
}

/// The timer that a delay of `secs` seconds and `subsec_nanos` nanoseconds arms, for a
/// `timespec` whose seconds field holds at most `sec_max` and whose nanoseconds field holds at
/// most `nsec_max` (the largest `time_t` and `c_long` of the platform): `None` for a zero
/// delay, which is over at once; `TooLarge` when a part does not fit its field.
pub fn timer_spec(secs: u64, subsec_nanos: u32, sec_max: u64, nsec_max: u64) -> (r: Result<
    Option<TimerSpec>,
    TimerError,
>)
    ensures
        secs == 0 && subsec_nanos == 0 ==> r is Ok && r->Ok_0 is None,
        !(secs == 0 && subsec_nanos == 0) && (secs > sec_max || subsec_nanos > nsec_max)
            ==> r is Err,
        !(secs == 0 && subsec_nanos == 0) && secs <= sec_max && subsec_nanos <= nsec_max ==> (
        r matches Ok(Some(spec)) && spec.tv_sec == secs && spec.tv_nsec == subsec_nanos),
{
    if secs == 0 && subsec_nanos == 0 {
        return Ok(None);
    }
    if secs > sec_max || subsec_nanos as u64 > nsec_max {
        return Err(TimerError::TooLarge);
    }
    Ok(Some(TimerSpec { tv_sec: secs, tv_nsec: subsec_nanos }))
}

/// The number of nanoseconds in a millisecond.
pub const NANOS_PER_MILLI: u128 = 1_000_000;

/// `nanos` nanoseconds in whole milliseconds, rounded up.
pub open spec fn ceil_millis(nanos: nat) -> nat {
    ((nanos + 999_999) / 1_000_000) as nat
}

/// The due time, in milliseconds, of a timer-queue timer for a delay of `nanos` nanoseconds.
/// The delay is rounded up to whole milliseconds, so the timer never fires before the delay is
/// over: `None` only for a zero delay, which is over at once; `TooLarge` when the milliseconds
/// do not fit 32 bits.
pub fn due_millis(nanos: u128) -> (r: Result<Option<u32>, TimerError>)
    ensures
        nanos == 0 ==> r is Ok && r->Ok_0 is None,
        nanos > 0 && ceil_millis(nanos as nat) > u32::MAX ==> r is Err,
        nanos > 0 && ceil_millis(nanos as nat) <= u32::MAX ==> (r matches Ok(Some(ms))
            && ms == ceil_millis(nanos as nat)),
        r matches Ok(Some(ms)) ==> ms >= 1 && ms * 1_000_000 >= nanos && (ms - 1) * 1_000_000
            < nanos,
{
    if nanos == 0 {
        return Ok(None);
    }
    if nanos > u32::MAX as u128 * NANOS_PER_MILLI {
        assert(ceil_millis(nanos as nat) > u32::MAX) by (nonlinear_arith)
            requires
                nanos > u32::MAX * 1_000_000,
        ;
        return Err(TimerError::TooLarge);
    }
    let ms = (nanos + 999_999) / NANOS_PER_MILLI;
    assert(ms <= u32::MAX) by (nonlinear_arith)
        requires
            nanos <= u32::MAX * 1_000_000,
            ms == (nanos + 999_999) / 1_000_000,
    ;
    assert(ms >= 1 && ms * 1_000_000 >= nanos && (ms - 1) * 1_000_000 < nanos) by (nonlinear_arith)
        requires
            nanos > 0,
            ms == (nanos + 999_999) / 1_000_000,
    ;
    Ok(Some(ms as u32))
}

} // verus!
