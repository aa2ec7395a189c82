use vstd::prelude::*;
use crate::timing::ringbuf::{LockFreeRingBuffer, is_power_of_two};
use crate::timing::timestamp::{Timestamp, saturating_diff};

verus! {

/// How regular a label's arrivals are, from best to worst.
#[derive(Debug, Clone, Copy, PartialEq, Eq, Structural)]
pub enum JitterGrade {
    Subatomic,
    AerospaceGrade,
    Acceptable,
    Noticeable,
    Degraded,
    Anomalous,
    FaultSuspected,
}

/// Sum of the values.
pub open spec fn seq_sum(s: Seq<u32>) -> int
    decreases s.len(),
{
    if s.len() == 0 {
        0
    } else {
        s[0] + seq_sum(s.drop_first())
    }
}

/// Sum of the squares of the values.
pub open spec fn seq_sum_sq(s: Seq<u32>) -> int
    decreases s.len(),
{
    if s.len() == 0 {
        0
    } else {
        s[0] * s[0] + seq_sum_sq(s.drop_first())
    }
}

/// Appending a value adds it to the sum, and its square to the sum of
/// squares.
pub proof fn lemma_sums_push(s: Seq<u32>, x: u32)
    ensures
        seq_sum(s.push(x)) == seq_sum(s) + x,
        seq_sum_sq(s.push(x)) == seq_sum_sq(s) + x * x,
    decreases s.len(),
{
    if s.len() > 0 {
        assert(s.push(x)[0] == s[0]);
        assert(s.push(x).drop_first() =~= s.drop_first().push(x));
        lemma_sums_push(s.drop_first(), x);
    } else {
        assert(s.push(x)[0] == x);
        assert(s.push(x).drop_first() =~= Seq::<u32>::empty());
        assert(seq_sum(Seq::<u32>::empty()) == 0);
        assert(seq_sum_sq(Seq::<u32>::empty()) == 0);
    }
}

/// The sums are bounded by the length times the largest value (and its
/// square).
pub proof fn lemma_sums_bounded(s: Seq<u32>)
    ensures
        0 <= seq_sum(s) <= s.len() * 0xFFFF_FFFF,
        0 <= seq_sum_sq(s) <= s.len() * (0xFFFF_FFFFint * 0xFFFF_FFFF),
    decreases s.len(),
{
    if s.len() > 0 {
        lemma_sums_bounded(s.drop_first());
        let x = s[0];
        assert(0 <= x * x <= 0xFFFF_FFFFint * 0xFFFF_FFFF) by (nonlinear_arith)
            requires
                0 <= x <= 0xFFFF_FFFF,
        ;
        assert(s.len() * (0xFFFF_FFFFint * 0xFFFF_FFFF) == (s.len() - 1) * (0xFFFF_FFFFint
            * 0xFFFF_FFFF) + 0xFFFF_FFFFint * 0xFFFF_FFFF) by (nonlinear_arith);
    }
}

/// The last `k` items of `s` (all of them when it has no more than `k`).
pub open spec fn last_items(s: Seq<u32>, k: nat) -> Seq<u32> {
    if s.len() <= k {
        s
    } else {
        s.subrange(s.len() - k, s.len() as int)
    }
}

/// The spacing between consecutive arrivals of one label: a window of the
/// most recent intervals, with their running sum and sum of squares, and the
/// smallest and largest interval and the number of intervals ever seen.
pub struct IntervalWindow {
    intervals: LockFreeRingBuffer<u32>,
    sum: u128,
    sum_sq: u128,
    min_interval_us: u64,
    max_interval_us: u64,
    sample_count: u64,
    last_arrival: Option<Timestamp>,
}

impl IntervalWindow {
    /// The running sums are those of the intervals in the window, and the
    /// window only grows until it is full.
    pub closed spec fn wf(self) -> bool {
        &&& self.intervals.wf()
        &&& self.intervals.in_step() || self.intervals.held() == self.intervals.cap()
        &&& self.intervals.cap() <= usize::MAX
        &&& self.intervals.held() <= self.intervals.cap()
        &&& self.sum == seq_sum(self.intervals.items())
        &&& self.sum_sq == seq_sum_sq(self.intervals.items())
    }

    /// The intervals in the window, oldest first.
    pub closed spec fn window(self) -> Seq<u32> {
        self.intervals.items()
    }

    /// How many intervals the window holds at most.
    pub closed spec fn window_capacity(self) -> nat {
        self.intervals.cap()
    }

    pub closed spec fn min_spec(self) -> u64 {
        self.min_interval_us
    }

    pub closed spec fn max_spec(self) -> u64 {
        self.max_interval_us
    }

    pub closed spec fn count_spec(self) -> u64 {
        self.sample_count
    }

    pub closed spec fn last_spec(self) -> Option<Timestamp> {
        self.last_arrival
    }

    /// A well-formed window holds at most its capacity of intervals, and its
    /// capacity is positive and fits a `usize`.
    pub proof fn lemma_bounds(&self)
        requires
            self.wf(),
        ensures
            self.window().len() <= self.window_capacity(),
            0 < self.window_capacity() <= usize::MAX,
    {
        self.intervals.lemma_bounds();
    }

    /// An empty window whose capacity is the smallest power of two that is
    /// at least `window_size` and at least 16.
    pub fn new(window_size: usize) -> (w: Self)
        requires
            window_size <= usize::MAX / 2 + 1,
        ensures
            w.wf(),
            w.window() == Seq::<u32>::empty(),
            is_power_of_two(w.window_capacity()),
            w.window_capacity() >= (if window_size < 16 { 16 } else { window_size }),
            w.window_capacity() < 2 * (if window_size < 16 { 16 } else { window_size }),
            w.min_spec() == u64::MAX,
            w.max_spec() == 0,
            w.count_spec() == 0,
            w.last_spec() is None,
    {
        let size = if window_size < 16 {
            16
        } else {
            window_size
        };
        let intervals = LockFreeRingBuffer::<u32>::new(size);
        proof {
            intervals.lemma_bounds();
            assert(seq_sum(Seq::<u32>::empty()) == 0);
            assert(seq_sum_sq(Seq::<u32>::empty()) == 0);
        }
        IntervalWindow {
            intervals,
            sum: 0,
            sum_sq: 0,
            min_interval_us: u64::MAX,
            max_interval_us: 0,
            sample_count: 0,
            last_arrival: None,
        }
    }

    /// Notes an arrival at `timestamp`. After an earlier arrival, the time
    /// since it (in microseconds, truncated to 32 bits) is an interval; a
    /// nonzero interval enters the window, pushing out the oldest one when
    /// the window is full, and updates the smallest, largest and count.
    pub fn record_arrival(&mut self, timestamp: Timestamp)
        requires
            old(self).wf(),
        ensures
            final(self).wf(),
            final(self).last_spec() == Some(timestamp),
            final(self).window_capacity() == old(self).window_capacity(),
            final(self).window() == (if interval_between(old(self).last_spec(), timestamp) == 0 {
                old(self).window()
            } else {
                last_items(
                    old(self).window().push(interval_between(old(self).last_spec(), timestamp)),
                    old(self).window_capacity(),
                )
            }),
            ({
                let delta = interval_between(old(self).last_spec(), timestamp);
                if delta == 0 {
                    &&& final(self).window() == old(self).window()
                    &&& final(self).min_spec() == old(self).min_spec()
                    &&& final(self).max_spec() == old(self).max_spec()
                    &&& final(self).count_spec() == old(self).count_spec()
                } else {
                    &&& final(self).window() == (if old(self).window().len()
                        == old(self).window_capacity() {
                        old(self).window().drop_first().push(delta)
                    } else {
                        old(self).window().push(delta)
                    })
                    &&& final(self).min_spec() == (if (delta as u64) < old(self).min_spec() {
                        delta as u64
                    } else {
                        old(self).min_spec()
                    })
                    &&& final(self).max_spec() == (if (delta as u64) > old(self).max_spec() {
                        delta as u64
                    } else {
                        old(self).max_spec()
                    })
                    &&& final(self).count_spec() == old(self).count_spec().saturating_add(1)
                }
            }),
    {
        proof {
            self.intervals.lemma_bounds();
            let w = self.intervals.items();
            let k = self.intervals.cap();
            let d = interval_between(self.last_arrival, timestamp);
            if w.len() == k {
                assert(last_items(w.push(d), k) =~= w.drop_first().push(d));
            } else {
                assert(last_items(w.push(d), k) =~= w.push(d));
            }
        }
        let delta: u32 = match self.last_arrival {
            Some(prev) => (timestamp.0.saturating_sub(prev.0)) as u32,
            None => 0,
        };
        if delta > 0 {
            let ghost before = self.intervals.items();
            let evicted = self.intervals.push(delta);
            let ghost after = self.intervals.items();
            proof {
                lemma_sums_bounded(after);
                let len = after.len();
                assert(len * 0xFFFF_FFFF <= u128::MAX && len * (0xFFFF_FFFFint * 0xFFFF_FFFF)
                    <= u128::MAX) by (nonlinear_arith)
                    requires
                        len <= usize::MAX,
                ;
                if before.len() >= self.intervals.cap() {
                    lemma_sums_push(before.drop_first(), delta);
                    lemma_sums_bounded(before.drop_first());
                    assert(seq_sum(before) == before[0] + seq_sum(before.drop_first()));
                    assert(seq_sum_sq(before) == before[0] * before[0] + seq_sum_sq(
                        before.drop_first(),
                    ));
                } else {
                    lemma_sums_push(before, delta);
                }
            }
            let (sum, sum_sq) = match evicted {
                Some(old) => {
                    let rest = self.sum - old as u128;
                    let rest_sq = self.sum_sq - (old as u128) * (old as u128);
                    (rest + delta as u128, rest_sq + (delta as u128) * (delta as u128))
                },
                None => (self.sum + delta as u128, self.sum_sq + (delta as u128) * (delta as u128)),
            };
            let d64 = delta as u64;
            let min_interval_us = if d64 < self.min_interval_us {
                d64
            } else {
                self.min_interval_us
            };
            let max_interval_us = if d64 > self.max_interval_us {
                d64
            } else {
                self.max_interval_us
            };
            self.sum = sum;
            self.sum_sq = sum_sq;
            self.min_interval_us = min_interval_us;
            self.max_interval_us = max_interval_us;
            self.sample_count = self.sample_count.saturating_add(1);
            self.last_arrival = Some(timestamp);
        } else {
            self.last_arrival = Some(timestamp);
        }
    }
}

impl IntervalWindow {
    /// Sum of the intervals in the window.
    pub fn sum(&self) -> (r: u128)
        requires
            self.wf(),
        ensures
            r == seq_sum(self.window()),
    {
        self.sum
    }

    /// Sum of the squares of the intervals in the window.
    pub fn sum_sq(&self) -> (r: u128)
        requires
            self.wf(),
        ensures
            r == seq_sum_sq(self.window()),
    {
        self.sum_sq
    }

    /// Number of intervals in the window.
    pub fn len(&self) -> (r: usize)
        ensures
            r == self.window().len(),
    {
        self.intervals.len()
    }

    /// How many intervals the window holds at most.
    pub fn capacity(&self) -> (r: usize)
        ensures
            r == self.window_capacity(),
    {
        self.intervals.capacity()
    }

    /// The smallest interval seen, or the largest `u64` before any.
    pub fn min_interval_us(&self) -> (r: u64)
        ensures
            r == self.min_spec(),
    {
        self.min_interval_us
    }

    /// The largest interval seen, or 0 before any.
    pub fn max_interval_us(&self) -> (r: u64)
        ensures
            r == self.max_spec(),
    {
        self.max_interval_us
    }

    /// How many intervals were seen.
    pub fn sample_count(&self) -> (r: u64)
        ensures
            r == self.count_spec(),
    {
        self.sample_count
    }

    /// The latest arrival, if any.
    pub fn last_arrival(&self) -> (r: Option<Timestamp>)
        ensures
            r == self.last_spec(),
    {
        self.last_arrival
    }

    /// The intervals in the window, oldest first.
    pub fn intervals_snapshot(&self) -> (v: Vec<u32>)
        requires
            self.wf(),
        ensures
            v@ == self.window(),
    {
        self.intervals.snapshot()
    }
}

/// The interval an arrival at `timestamp` closes after the arrival `last`:
/// the microseconds between them (0 when `timestamp` is earlier), truncated
/// to 32 bits; 0 when there was no earlier arrival.
pub open spec fn interval_between(last: Option<Timestamp>, timestamp: Timestamp) -> u32 {
    match last {
        Some(prev) => saturating_diff(timestamp.0, prev.0) as u32,
        None => 0,
    }
}

/// The first and latest arrival times of a capture.
#[derive(Debug, Clone, Copy, PartialEq, Eq, Structural)]
pub struct CaptureSpan {
    pub start: Option<Timestamp>,
    pub end: Option<Timestamp>,
}

impl CaptureSpan {
    /// A span with no arrival yet.
    pub fn new() -> (s: Self)
        ensures
            s.start is None,
            s.end is None,
    {
        CaptureSpan { start: None, end: None }
    }

    /// Notes an arrival: the first one starts the span, each one ends it.
    pub fn note(&mut self, timestamp: Timestamp)
        ensures
            final(self).start == (if old(self).start is None {
                Some(timestamp)
            } else {
                old(self).start
            }),
            final(self).end == Some(timestamp),
    {
        if self.start.is_none() {
            self.start = Some(timestamp);
        }
        self.end = Some(timestamp);
    }

    /// Microseconds from the first to the latest arrival (0 when the latest
    /// is earlier, or when there was none).
    pub fn duration_us(&self) -> (d: u64)
        ensures
            d == (match (self.start, self.end) {
                (Some(s), Some(e)) => saturating_diff(e.0, s.0),
                _ => 0,
            }),
    {
        match (self.start, self.end) {
            (Some(s), Some(e)) => e.0.saturating_sub(s.0),
            _ => 0,
        }
    }

    /// Forgets every arrival.
    pub fn clear(&mut self)
        ensures
            final(self).start is None,
            final(self).end is None,
    {
        self.start = None;
        self.end = None;
    }
}

} // verus!
