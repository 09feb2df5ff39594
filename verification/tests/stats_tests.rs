//! Tests for percentile and standard-deviation computation.

use latency_probe::stats::{calculate_percentiles, calculate_std_dev, Percentiles};

#[test]
fn percentiles_of_empty_input_are_zero() {
    let p = calculate_percentiles(Vec::new());
    assert_eq!(p, Percentiles { p50: 0, p75: 0, p90: 0, p95: 0, p99: 0, p999: 0 });
}

#[test]
fn percentiles_of_known_list() {
    // 1..=100: index for p is min(100 * p / 100 - 1, 99).
    let samples: Vec<u64> = (1..=100).collect();
    let p = calculate_percentiles(samples);
    assert_eq!(p.p50, 50);
    assert_eq!(p.p75, 75);
    assert_eq!(p.p90, 90);
    assert_eq!(p.p95, 95);
    assert_eq!(p.p99, 99);
    // 100 * 999 / 1000 = 99, moved down one and clamped: the 99th sample.
    assert_eq!(p.p999, 99);
}

#[test]
fn percentiles_of_single_sample() {
    let p = calculate_percentiles(vec![42]);
    assert_eq!(p, Percentiles { p50: 42, p75: 42, p90: 42, p95: 42, p99: 42, p999: 42 });
}

#[test]
fn percentiles_are_order_independent() {
    let sorted: Vec<u64> = vec![10, 20, 30, 40, 50, 60, 70, 80, 90, 100];
    let shuffled: Vec<u64> = vec![70, 10, 100, 40, 20, 90, 30, 60, 80, 50];
    let reversed: Vec<u64> = sorted.iter().rev().cloned().collect();
    let a = calculate_percentiles(sorted);
    let b = calculate_percentiles(shuffled);
    let c = calculate_percentiles(reversed);
    assert_eq!(a, b);
    assert_eq!(a, c);
}

#[test]
fn std_dev_of_empty_and_singleton_is_zero() {
    assert_eq!(calculate_std_dev(&Vec::new(), 123), 0);
    assert_eq!(calculate_std_dev(&vec![77], 77), 0);
}

#[test]
fn std_dev_of_known_list() {
    // [2, 4, 4, 4, 5, 5, 7, 9] about mean 5: variance 4, deviation 2.
    let samples: Vec<u64> = vec![2, 4, 4, 4, 5, 5, 7, 9];
    assert_eq!(calculate_std_dev(&samples, 5), 2);
}

#[test]
fn std_dev_rounds_down() {
    // [1, 4] about mean 2: variance (1 + 4) / 2 = 2, isqrt(2) = 1.
    let samples: Vec<u64> = vec![1, 4];
    assert_eq!(calculate_std_dev(&samples, 2), 1);
}
