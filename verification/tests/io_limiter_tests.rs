use clawdb::io_limiter::{interval_refill_bytes, IoPriority, IoRateLimiter};

#[test]
fn test_rate_limiter_basic() {
    let mut limiter = IoRateLimiter::new(1000);

    assert!(limiter.request(100, IoPriority::High));
    assert!(limiter.request(100, IoPriority::Medium));
    assert!(limiter.request(100, IoPriority::Low));
}

#[test]
fn test_rate_limiter_quota() {
    let mut limiter = IoRateLimiter::new(1000);

    let available = limiter.get_available_quota(IoPriority::High);
    assert!(available > 0);
}

#[test]
fn limiter_consume_takes_from_one_class() {
    let mut limiter = IoRateLimiter::new(1200);
    // Quotas: 600, 400, 200.
    assert!(limiter.consume(600, IoPriority::High));
    assert!(!limiter.consume(1, IoPriority::High));
    assert!(!limiter.consume(201, IoPriority::Low));
    assert!(limiter.consume(200, IoPriority::Low));
    assert!(limiter.consume(400, IoPriority::Medium));
    assert_eq!(limiter.get_current_usage(), 1200);
}

#[test]
fn limiter_refill_adds_one_interval() {
    let mut limiter = IoRateLimiter::new(1200);
    assert!(limiter.consume(600, IoPriority::High));
    // Less than 100 ms: no refill.
    assert!(!limiter.refill_at(99_999_999));
    assert!(!limiter.consume(1, IoPriority::High));
    // 100 ms: 120 bytes, of which 60 go to the high class.
    assert!(limiter.refill_at(100_000_000));
    assert_eq!(limiter.get_current_usage(), 0);
    assert!(limiter.consume(60, IoPriority::High));
    assert!(!limiter.consume(1, IoPriority::High));
    assert!(limiter.consume(440, IoPriority::Medium));
    assert!(limiter.consume(220, IoPriority::Low));
}

#[test]
fn limiter_set_rate_changes_later_refills() {
    let mut limiter = IoRateLimiter::new(0);
    assert!(!limiter.consume(1, IoPriority::High));
    limiter.set_rate(20);
    assert!(!limiter.consume(1, IoPriority::High));
    assert!(limiter.refill_at(200_000_000));
    assert!(limiter.consume(1, IoPriority::High));
    assert!(!limiter.consume(1, IoPriority::High));
}

#[test]
fn limiter_refuses_more_than_the_quota() {
    let mut limiter = IoRateLimiter::new(100);
    assert!(!limiter.request(1000, IoPriority::High));
    assert_eq!(limiter.get_current_usage(), 0);
}

fn float_refill(bytes_per_second: u64) -> u64 {
    let interval = std::time::Duration::from_millis(100);
    (bytes_per_second as f64 * interval.as_secs_f64()) as u64
}

#[test]
fn refill_bytes_match_double_precision() {
    let mut samples: Vec<u64> = vec![
        0,
        1,
        9,
        10,
        1_000,
        1_048_576,
        100 * 1024 * 1024,
        (1u64 << 53) - 1,
        1u64 << 53,
        (1u64 << 53) + 1,
        (1u64 << 53) + 3,
        1u64 << 63,
        123_456_789_012_345_678,
        u64::MAX - 1,
        u64::MAX,
    ];
    let mut x: u64 = 0x9E37_79B9_7F4A_7C15;
    for shift in 0..64u32 {
        for _ in 0..200 {
            x ^= x << 13;
            x ^= x >> 7;
            x ^= x << 17;
            samples.push(x >> shift);
        }
    }
    for b in samples {
        assert_eq!(interval_refill_bytes(b), float_refill(b), "rate {}", b);
    }
}

#[test]
fn large_rate_refill_rounds_like_a_double() {
    let b: u64 = 123_456_789_012_345_678;
    assert_eq!(interval_refill_bytes(b), 12_345_678_901_234_568);
    let mut limiter = IoRateLimiter::new(0);
    limiter.set_rate(b);
    assert!(limiter.refill_at(100_000_000));
    assert!(limiter.consume(6_172_839_450_617_284, IoPriority::High));
    assert!(!limiter.consume(1, IoPriority::High));
}

#[test]
fn limiter_refills_once_per_interval() {
    // Quotas 600 / 400 / 200; 120 bytes per refill, 60 of them high.
    let mut limiter = IoRateLimiter::new(1200);
    assert!(limiter.request_at(600, IoPriority::High, 50_000_000));
    assert!(!limiter.request_at(1, IoPriority::High, 99_999_999));
    assert_eq!(limiter.get_current_usage(), 600);
    // 100 ms after creation: one refill, recorded at this time.
    assert!(limiter.request_at(60, IoPriority::High, 100_000_000));
    assert_eq!(limiter.get_current_usage(), 60);
    // 150 ms: less than an interval since that refill, so none.
    assert!(!limiter.request_at(1, IoPriority::High, 150_000_000));
    assert_eq!(limiter.get_available_quota_at(IoPriority::High, 199_999_999), 0);
    // 200 ms: the next refill.
    assert_eq!(limiter.get_available_quota_at(IoPriority::High, 200_000_000), 60);
    assert_eq!(limiter.get_current_usage(), 0);
    assert_eq!(limiter.get_available_quota_at(IoPriority::Medium, 250_000_000), 480);
}

#[test]
fn limiter_refill_check_records_its_time() {
    let mut limiter = IoRateLimiter::new(1000);
    assert!(!limiter.refill_if_needed_at(99_999_999));
    assert!(limiter.refill_if_needed_at(100_000_000));
    assert!(!limiter.refill_if_needed_at(199_999_999));
    assert!(limiter.refill_if_needed_at(300_000_000));
    // A time before the last refill counts as no time passed.
    assert!(!limiter.refill_if_needed_at(0));
    assert_eq!(limiter.get_available_quota_at(IoPriority::Low, 300_000_001), 166 + 16 + 16);
}
