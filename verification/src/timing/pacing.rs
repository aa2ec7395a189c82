use vstd::prelude::*;

verus! {

/// Below this many microseconds a wait is spun rather than slept.
pub const SPIN_BELOW_MICROS: u64 = 50;

/// A paced wait sleeps until this close to its target, then spins.
pub const SPIN_MARGIN_MICROS: u64 = 30;

/// How a wait of some microseconds begins.
#[derive(Debug, Clone, Copy, PartialEq, Eq, Structural)]
pub enum SleepStart {
    /// Nothing to wait for.
    Immediate,
    /// Too short to sleep: spin for this many microseconds.
    Spin(u64),
    /// Sleep in steps, then spin, until this many microseconds have passed.
    Paced(u64),
}

/// The start of a wait of `micros`.
pub fn sleep_start(micros: u64) -> (s: SleepStart)
    ensures
        micros == 0 ==> s == SleepStart::Immediate,
        0 < micros < SPIN_BELOW_MICROS ==> s == SleepStart::Spin(micros),
        micros >= SPIN_BELOW_MICROS ==> s == SleepStart::Paced(micros),
{
    if micros == 0 {
        SleepStart::Immediate
    } else if micros < SPIN_BELOW_MICROS {
        SleepStart::Spin(micros)
    } else {
        SleepStart::Paced(micros)
    }
}

/// One step of a paced wait.
#[derive(Debug, Clone, Copy, PartialEq, Eq, Structural)]
pub enum PaceStep {
    /// Close enough: spin until the target.
    SpinUntilTarget,
    /// Sleep this many nanoseconds, then look again.
    Sleep(u128),
}

/// The step of a paced wait with `remaining_ns` nanoseconds left: within
/// the spin margin, spin; otherwise sleep all but the margin.
pub fn pace_step(remaining_ns: u128) -> (s: PaceStep)
    ensures
        remaining_ns <= SPIN_MARGIN_MICROS * 1000 ==> s == PaceStep::SpinUntilTarget,
        remaining_ns > SPIN_MARGIN_MICROS * 1000 ==> s == PaceStep::Sleep(
            (remaining_ns - SPIN_MARGIN_MICROS * 1000) as u128,
        ),
{
    let margin: u128 = SPIN_MARGIN_MICROS as u128 * 1000;
    if remaining_ns <= margin {
        PaceStep::SpinUntilTarget
    } else {
        PaceStep::Sleep(remaining_ns - margin)
    }
}

/// One step of waiting for a scheduled send time.
#[derive(Debug, Clone, Copy, PartialEq, Eq, Structural)]
pub enum WaitStep {
    /// The time has come.
    Ready,
    /// Sleep this many microseconds, then look again.
    Sleep(u64),
    /// Spin once, then look again.
    Spin,
}

/// The step when the clock reads `now_us` and the send is due at
/// `target_us`: due already, or sleep all but the spin margin of a wait
/// longer than the spin threshold, or spin.
pub fn wait_step(now_us: u64, target_us: u64) -> (s: WaitStep)
    ensures
        now_us >= target_us ==> s == WaitStep::Ready,
        now_us < target_us && target_us - now_us > SPIN_BELOW_MICROS ==> s == WaitStep::Sleep(
            (target_us - now_us - SPIN_MARGIN_MICROS) as u64,
        ),
        now_us < target_us && target_us - now_us <= SPIN_BELOW_MICROS ==> s == WaitStep::Spin,
{
    if now_us >= target_us {
        return WaitStep::Ready;
    }
    let remain = target_us - now_us;
    if remain > SPIN_BELOW_MICROS {
        WaitStep::Sleep(remain - SPIN_MARGIN_MICROS)
    } else {
        WaitStep::Spin
    }
}

} // verus!
