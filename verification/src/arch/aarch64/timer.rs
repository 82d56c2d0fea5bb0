//! The kernel's heartbeat: the tick counter and the virtual timer's compare
//! value.

use vstd::prelude::*;

verus! {

/// The timer's software state.
#[derive(Clone, Copy)]
pub struct Timer {
    /// Ticks since the timer was started.
    pub ticks: u64,
    /// Counter ticks per timer period; 0 = not ticking.
    pub period: u64,
}

impl Timer {
    /// A timer that has not ticked and is not armed.
    pub fn new() -> (t: Timer)
        ensures
            t == (Timer { ticks: 0, period: 0 }),
    {
        Timer { ticks: 0, period: 0 }
    }
}

/// CNTV_CTL_EL0 of a running timer: enabled, its interrupt not masked.
pub const CTL_ENABLE: u64 = 1;

/// CNTV_CTL_EL0 of a stopped timer.
pub const CTL_OFF: u64 = 0;

/// What to program the virtual timer with: the compare value first, so that it
/// does not fire against a stale one.
#[derive(Clone, Copy, PartialEq, Eq, Structural, Debug)]
pub struct TimerRegs {
    /// CNTV_CVAL_EL0.
    pub cval: u64,
    /// CNTV_CTL_EL0; None = leave it.
    pub ctl: Option<u64>,
}

/// Start the timer: it fires once the counter, now at `counter`, has advanced by
/// `ticks`.
pub fn arm(counter: u64, ticks: u64) -> (r: TimerRegs)
    requires
        counter + ticks <= u64::MAX,
    ensures
        r == (TimerRegs { cval: (counter + ticks) as u64, ctl: Some(CTL_ENABLE) }),
{
    TimerRegs { cval: counter + ticks, ctl: Some(CTL_ENABLE) }
}

/// The next period of a running timer: one period from `counter`.
pub fn rearm(counter: u64, period: u64) -> (r: TimerRegs)
    requires
        counter + period <= u64::MAX,
    ensures
        r == (TimerRegs { cval: (counter + period) as u64, ctl: None }),
{
    TimerRegs { cval: counter + period, ctl: None }
}

/// Tick once every `period` counter ticks from now on; what to program is
/// `arm(counter, period)`.
pub fn start_ticking(t: &mut Timer, counter: u64, period: u64) -> (r: TimerRegs)
    requires
        counter + period <= u64::MAX,
    ensures
        *final(t) == (Timer { period, ..*old(t) }),
        r == (TimerRegs { cval: (counter + period) as u64, ctl: Some(CTL_ENABLE) }),
{
    t.period = period;
    arm(counter, period)
}

/// What a tick at `counter` programs a timer of that period with; a timer that
/// is not ticking is left alone.
pub open spec fn next_period(counter: u64, period: u64) -> Option<TimerRegs> {
    if period > 0 {
        Some(TimerRegs { cval: (counter + period) as u64, ctl: None })
    } else {
        None
    }
}

/// Handle one timer interrupt, taken when the counter read `counter`: count it,
/// and program the timer for the next period if it is ticking. The tick counter
/// wraps, as an atomic add does.
pub fn on_tick(t: &mut Timer, counter: u64) -> (r: Option<TimerRegs>)
    requires
        counter + old(t).period <= u64::MAX,
    ensures
        *final(t) == (Timer { ticks: ((old(t).ticks + 1) % 0x1_0000_0000_0000_0000) as u64, ..*old(
            t,
        ) }),
        r == next_period(counter, old(t).period),
{
    t.ticks = t.ticks.wrapping_add(1);
    if t.period > 0 {
        Some(rearm(counter, t.period))
    } else {
        None
    }
}

/// How many ticks have elapsed since the timer was started.
pub fn ticks(t: &Timer) -> (n: u64)
    ensures
        n == t.ticks,
{
    t.ticks
}

} // verus!
