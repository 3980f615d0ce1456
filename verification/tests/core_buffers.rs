use montui::rate::RateEstimator;
use montui::ring::RingBuffer;

#[test]
fn ring_starts_full_of_fill_value() {
    let buf: RingBuffer<u64> = RingBuffer::new(4, 7);
    assert_eq!(buf.len(), 4);
    assert_eq!(buf.to_vec(), vec![7, 7, 7, 7]);
}

#[test]
fn ring_push_evicts_oldest() {
    let mut buf: RingBuffer<u64> = RingBuffer::new(3, 0);
    buf.push(1);
    assert_eq!(buf.to_vec(), vec![0, 0, 1]);
    buf.push(2);
    assert_eq!(buf.to_vec(), vec![0, 1, 2]);
    buf.push(3);
    assert_eq!(buf.to_vec(), vec![1, 2, 3]);
    buf.push(4);
    assert_eq!(buf.len(), 3);
    assert_eq!(buf.to_vec(), vec![2, 3, 4]);
}

#[test]
fn ring_window_holds_last_capacity_values() {
    let mut buf: RingBuffer<u64> = RingBuffer::new(60, 0);
    for v in 0..70u64 {
        buf.push(v);
    }
    assert_eq!(buf.len(), 60);
    let values = buf.to_vec();
    for (k, v) in values.iter().enumerate() {
        assert_eq!(*v, 10 + k as u64);
    }
    assert_eq!(buf.get(0), 10);
    assert_eq!(buf.get(59), 69);
}

#[test]
fn rate_first_tick_is_zero() {
    let mut est = RateEstimator::new();
    assert_eq!(est.update(12345, 1_000_000), 0);
    assert!(est.prev().is_some());
}

#[test]
fn rate_decreasing_counter_clamps_to_zero() {
    let mut est = RateEstimator::new();
    est.update(100, 0);
    let rate = est.update(80, 1_000_000);
    assert_eq!(rate, 0);
}

#[test]
fn rate_exact_units_per_second() {
    let mut est = RateEstimator::new();
    est.update(100, 0);
    let rate = est.update(1124, 1_000_000);
    assert_eq!(rate, 1024);
}

#[test]
fn rate_zero_elapsed_uses_microsecond_floor() {
    let mut est = RateEstimator::new();
    est.update(0, 5_000_000);
    // Same instant: the elapsed time is floored to one microsecond.
    let rate = est.update(3, 5_000_000);
    assert_eq!(rate, 3_000_000);
}

#[test]
fn rate_always_replaces_previous_sample() {
    let mut est = RateEstimator::new();
    est.update(50, 0);
    est.update(20, 1_000_000);
    let prev = est.prev().unwrap();
    assert_eq!(prev.value, 20);
    assert_eq!(prev.time_micros, 1_000_000);
}

#[test]
fn rate_half_second_doubles() {
    let mut est = RateEstimator::new();
    est.update(0, 0);
    let rate = est.update(512, 500_000);
    assert_eq!(rate, 1024);
}

#[test]
fn rate_saturates_at_max() {
    let mut est = RateEstimator::new();
    est.update(0, 0);
    // A full-range delta over the one-microsecond floor saturates.
    let rate = est.update(u64::MAX, 0);
    assert_eq!(rate, u64::MAX);
}

#[test]
fn ring_of_capacity_one_holds_newest() {
    let mut buf: RingBuffer<u64> = RingBuffer::new(1, 5);
    assert_eq!(buf.to_vec(), vec![5]);
    buf.push(9);
    assert_eq!(buf.to_vec(), vec![9]);
}
