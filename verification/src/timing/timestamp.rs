use vstd::prelude::*;
use std::sync::atomic::{AtomicU64, Ordering};
use std::time::{Duration, Instant};
use vstd::std_specs::ops::SubSpecImpl;

verus! {

/// `Instant` of std, carried through the clock unread.
#[verifier::external_type_specification]
#[verifier::external_body]
pub struct ExInstant(Instant);

/// The duration of `micros` microseconds, as `Duration::from_micros` builds it.
pub uninterp spec fn micros_duration(micros: u64) -> Duration;

/// The whole microseconds of a duration, as `Duration::as_micros` counts
/// them.
pub uninterp spec fn whole_micros(d: Duration) -> u128;

/// `Duration::from_micros`: the duration of `micros` microseconds. The
/// result is named by `micros_duration`, a function of `micros` alone; of
/// it, only that it holds exactly `micros` whole microseconds is stated.
#[verifier::external_body]
fn duration_from_micros(micros: u64) -> (d: Duration)
    ensures
        d == micros_duration(micros),
        whole_micros(d) == micros,
{
    Duration::from_micros(micros)
}

/// `Duration::as_micros`: the whole microseconds of `d`, named by
/// `whole_micros`, a function of `d` alone.
#[verifier::external_body]
fn duration_as_micros(d: &Duration) -> (r: u128)
    ensures
        r == whole_micros(*d),
{
    d.as_micros()
}

/// A capture time in microseconds.
#[derive(Debug, Clone, Copy, PartialEq, Eq, PartialOrd, Ord, Hash, Default, Structural)]
pub struct Timestamp(pub u64);

/// `a - b`, or 0 when `b` is later than `a`.
pub open spec fn saturating_diff(a: u64, b: u64) -> u64 {
    if a >= b {
        (a - b) as u64
    } else {
        0
    }
}

impl Timestamp {
    pub fn from_micros(micros: u64) -> (t: Self)
        ensures
            t.0 == micros,
    {
        Timestamp(micros)
    }

    pub fn as_micros(&self) -> (r: u64)
        ensures
            r == self.0,
    {
        self.0
    }

    pub fn as_nanos(&self) -> (r: u128)
        ensures
            r == self.0 * 1000,
    {
        self.0 as u128 * 1_000
    }

    pub fn as_duration(&self) -> (d: Duration)
        ensures
            d == micros_duration(self.0),
            whole_micros(d) == self.0,
    {
        duration_from_micros(self.0)
    }

    /// The time from `other` to `self`, or zero when `other` is later.
    pub fn saturating_sub(&self, other: Timestamp) -> (d: Duration)
        ensures
            d == micros_duration(saturating_diff(self.0, other.0)),
            whole_micros(d) == saturating_diff(self.0, other.0),
    {
        if self.0 >= other.0 {
            duration_from_micros(self.0 - other.0)
        } else {
            duration_from_micros(0)
        }
    }

    /// The signed difference `self - other` in microseconds.
    pub fn delta_micros(&self, other: Timestamp) -> (r: i128)
        ensures
            r == self.0 - other.0,
    {
        self.0 as i128 - other.0 as i128
    }

    /// The reading of a clock whose epoch offset is `offset_micros` after
    /// `elapsed_micros` have passed: their sum, capped at the largest value.
    pub fn from_clock_reading(offset_micros: u64, elapsed_micros: u64) -> (t: Self)
        ensures
            t.0 == (if offset_micros + elapsed_micros <= u64::MAX {
                (offset_micros + elapsed_micros) as u64
            } else {
                u64::MAX
            }),
    {
        Timestamp::from_micros(offset_micros.saturating_add(elapsed_micros))
    }
}

impl std::ops::Sub for Timestamp {
    type Output = Duration;

    fn sub(self, rhs: Timestamp) -> (d: Duration) {
        self.saturating_sub(rhs)
    }
}

impl SubSpecImpl for Timestamp {
    open spec fn obeys_sub_spec() -> bool {
        true
    }

    open spec fn sub_req(self, rhs: Timestamp) -> bool {
        true
    }

    open spec fn sub_spec(self, rhs: Timestamp) -> Duration {
        micros_duration(saturating_diff(self.0, rhs.0))
    }
}

/// `Instant::now`: reads the monotonic clock. The reading is the machine's,
/// so nothing is stated of it.
#[verifier::external_body]
fn instant_now() -> Instant {
    Instant::now()
}

/// `Instant::elapsed`: the time since `start`. The time is the machine's,
/// so nothing is stated of it.
#[verifier::external_body]
fn elapsed_since(start: &Instant) -> Duration {
    start.elapsed()
}

/// Microseconds since `start`, cut to 64 bits: the whole microseconds of
/// the elapsed duration, which the machine's clock gives.
fn micros_since(start: &Instant) -> (r: u64)
    ensures
        exists|d: Duration| r == #[trigger] whole_micros(d) as u64,
{
    let elapsed = elapsed_since(start);
    let r = duration_as_micros(&elapsed) as u64;
    assert(r == whole_micros(elapsed) as u64);
    r
}

/// A monotonic microsecond clock with an adjustable epoch offset.
pub struct PreciseClock {
    start_instant: Instant,
    start_raw: AtomicU64,
}

impl PreciseClock {
    /// A clock started now, with a zero epoch offset. The start is the
    /// machine's reading and the offset sits in an atomic whose value is not
    /// modelled, so nothing is stated of the result.
    pub fn new() -> Self {
        let start_instant = instant_now();
        PreciseClock { start_instant, start_raw: AtomicU64::new(0) }
    }

    /// The epoch offset plus the time since the clock was made, capped at
    /// the largest timestamp. Both come from the machine, so nothing is
    /// stated of the value.
    pub fn now(&self) -> Timestamp {
        let elapsed = micros_since(&self.start_instant);
        let offset = self.start_raw.load(Ordering::Relaxed);
        Timestamp::from_clock_reading(offset, elapsed)
    }

    /// Microseconds from `since` to now, or 0 when `since` is later. The
    /// reading of now is the machine's; the difference from it saturates,
    /// so it never exceeds the time left before the largest timestamp.
    pub fn elapsed_micros(&self, since: Timestamp) -> (r: u64)
        ensures
            exists|t: Timestamp| r == #[trigger] saturating_diff(t.0, since.0),
            r <= u64::MAX - since.0,
    {
        let now = self.now();
        let r = now.0.saturating_sub(since.0);
        assert(r == saturating_diff(now.0, since.0));
        r
    }

    pub fn set_epoch_offset(&self, offset_micros: u64) {
        self.start_raw.store(offset_micros, Ordering::SeqCst);
    }
}

impl Default for PreciseClock {
    fn default() -> Self {
        Self::new()
    }
}

} // verus!
