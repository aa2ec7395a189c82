use std::time::Duration;

use arinc429_sniffer::timing::ringbuf::LockFreeRingBuffer;
use arinc429_sniffer::timing::timestamp::{PreciseClock, Timestamp};

#[test]
fn test_ringbuf_push_pop() {
    let mut rb: LockFreeRingBuffer<u32> = LockFreeRingBuffer::new(4);
    assert_eq!(rb.len(), 0);
    assert!(rb.is_empty());

    assert!(rb.push(1).is_none());
    assert!(rb.push(2).is_none());
    assert_eq!(rb.len(), 2);

    assert_eq!(rb.pop(), Some(1));
    assert_eq!(rb.pop(), Some(2));
    assert_eq!(rb.pop(), None);
}

#[test]
fn test_ringbuf_overflow_overwrites_oldest() {
    let mut rb: LockFreeRingBuffer<u32> = LockFreeRingBuffer::new(4);
    for i in 0..4 {
        rb.push(i);
    }
    assert_eq!(rb.len(), 4);

    let evicted = rb.push(100);
    assert_eq!(evicted, Some(0));
    assert_eq!(rb.len(), 4);

    assert_eq!(rb.pop(), Some(1));
    assert_eq!(rb.pop(), Some(2));
    assert_eq!(rb.pop(), Some(3));
    assert_eq!(rb.pop(), Some(100));
}

#[test]
fn test_ringbuf_snapshot() {
    let mut rb: LockFreeRingBuffer<u32> = LockFreeRingBuffer::new(8);
    for i in 0..5 {
        rb.push(i);
    }
    let snap = rb.snapshot();
    assert_eq!(snap, vec![0, 1, 2, 3, 4]);
}

#[test]
fn test_ringbuf_wraparound() {
    let mut rb: LockFreeRingBuffer<u32> = LockFreeRingBuffer::new(4);
    for _ in 0..100 {
        for i in 0..4 {
            rb.push(i);
        }
        for i in 0..4 {
            assert_eq!(rb.pop(), Some(i));
        }
    }
}

#[test]
fn test_ringbuf_capacity_rounds_up() {
    let rb: LockFreeRingBuffer<u32> = LockFreeRingBuffer::new(5);
    assert_eq!(rb.capacity(), 8);
    let rb: LockFreeRingBuffer<u32> = LockFreeRingBuffer::new(1);
    assert_eq!(rb.capacity(), 1);
}

#[test]
fn test_ringbuf_clear() {
    let mut rb: LockFreeRingBuffer<u32> = LockFreeRingBuffer::new(2);
    rb.push(1);
    rb.push(2);
    rb.clear();
    assert!(rb.is_empty());
    assert_eq!(rb.pop(), None);
    rb.push(9);
    assert_eq!(rb.snapshot(), vec![9]);
}

#[test]
fn test_timestamp_basic() {
    let t1 = Timestamp::from_micros(1000);
    let t2 = Timestamp::from_micros(500);
    assert_eq!(t1 - t2, Duration::from_micros(500));
    assert_eq!(t2 - t1, Duration::from_micros(0));
    assert_eq!(t1.as_micros(), 1000);
}

#[test]
fn test_precise_clock_monotonic() {
    let clock = PreciseClock::new();
    let mut prev = clock.now();
    for _ in 0..100 {
        let now = clock.now();
        assert!(now >= prev, "Clock must be monotonically increasing");
        prev = now;
    }
}

#[test]
fn test_timestamp_delta() {
    let a = Timestamp::from_micros(1500);
    let b = Timestamp::from_micros(1000);
    assert_eq!(a.delta_micros(b), 500);
    assert_eq!(b.delta_micros(a), -500);
}

#[test]
fn test_timestamp_conversions() {
    let t = Timestamp::from_micros(7);
    assert_eq!(t.as_nanos(), 7000);
    assert_eq!(t.as_duration(), Duration::from_micros(7));
    assert_eq!(Timestamp::from_clock_reading(u64::MAX - 1, 5).as_micros(), u64::MAX);
    assert_eq!(Timestamp::from_clock_reading(10, 5).as_micros(), 15);
    let clock = PreciseClock::new();
    clock.set_epoch_offset(1_000_000);
    assert!(clock.now().as_micros() >= 1_000_000);
}

use arinc429_sniffer::timing::jitter::IntervalWindow;

#[test]
fn interval_window_keeps_exact_sums() {
    let mut w = IntervalWindow::new(4);
    assert_eq!(w.capacity(), 16);
    w.record_arrival(Timestamp::from_micros(100));
    assert_eq!(w.sample_count(), 0);
    assert_eq!(w.last_arrival(), Some(Timestamp::from_micros(100)));
    w.record_arrival(Timestamp::from_micros(100));
    assert_eq!(w.sample_count(), 0);
    let mut t = 100u64;
    for i in 0..20u64 {
        t += 10 + i;
        w.record_arrival(Timestamp::from_micros(t));
    }
    assert_eq!(w.sample_count(), 20);
    assert_eq!(w.len(), 16);
    let snap = w.intervals_snapshot();
    let expected: Vec<u32> = (4..20u32).map(|i| 10 + i).collect();
    assert_eq!(snap, expected);
    assert_eq!(w.sum(), expected.iter().map(|&x| x as u128).sum::<u128>());
    assert_eq!(w.sum_sq(), expected.iter().map(|&x| (x as u128) * (x as u128)).sum::<u128>());
    assert_eq!(w.min_interval_us(), 10);
    assert_eq!(w.max_interval_us(), 29);
    w.record_arrival(Timestamp::from_micros(5));
    assert_eq!(w.sample_count(), 20);
}

#[test]
fn interval_window_capacity_is_the_next_power_of_two() {
    assert_eq!(IntervalWindow::new(0).capacity(), 16);
    assert_eq!(IntervalWindow::new(16).capacity(), 16);
    assert_eq!(IntervalWindow::new(17).capacity(), 32);
    assert_eq!(IntervalWindow::new(100).capacity(), 128);
    assert_eq!(IntervalWindow::new(4096).capacity(), 4096);
}

#[test]
fn ring_acts_as_a_queue_while_in_step() {
    let mut rb: LockFreeRingBuffer<u32> = LockFreeRingBuffer::new(4);
    for i in 0..4 {
        assert_eq!(rb.push(i), None);
    }
    assert_eq!(rb.push(100), Some(0));
    assert_eq!(rb.snapshot(), vec![1, 2, 3, 100]);
    assert_eq!(rb.pop(), Some(1));
    assert_eq!(rb.snapshot(), vec![2, 3, 100]);
    rb.clear();
    assert_eq!(rb.push(7), None);
    assert_eq!(rb.pop(), Some(7));
    assert_eq!(rb.pop(), None);
}

#[test]
fn ring_push_after_overwrite_and_pop_reuses_the_stale_slot() {
    // After an overwriting push the write position stays behind, so a push
    // below capacity lands on the slot of the newest item.
    let mut rb: LockFreeRingBuffer<u32> = LockFreeRingBuffer::new(4);
    for i in 0..4 {
        rb.push(i);
    }
    rb.push(100);
    assert_eq!(rb.pop(), Some(1));
    rb.push(200);
    assert_eq!(rb.pop(), Some(2));
    assert_eq!(rb.pop(), Some(3));
    assert_eq!(rb.pop(), Some(200));
    assert_eq!(rb.pop(), Some(1));
}
