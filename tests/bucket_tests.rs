use lol_crawler::token_bucket::TokenBucket;

#[test]
fn test_token_bucket_basic() {
    let mut bucket = TokenBucket::per_second(10, 10, 0);

    assert!(bucket.try_acquire(5, 0));
    assert_eq!(bucket.available_tokens(0), 5);

    assert!(!bucket.try_acquire(10, 0));

    assert_eq!(bucket.available_tokens(0), 5);
}

#[test]
fn test_token_bucket_refill() {
    let mut bucket = TokenBucket::new(10, 10, 100, 0);

    assert!(bucket.try_acquire(10, 0));
    assert_eq!(bucket.available_tokens(0), 0);

    assert!(bucket.available_tokens(150) > 0);
}

#[test]
fn partial_intervals_award_nothing() {
    let mut bucket = TokenBucket::new(10, 3, 100, 1000);
    assert!(bucket.try_acquire(10, 1000));
    assert_eq!(bucket.available_tokens(1099), 0);
    assert_eq!(bucket.available_tokens(1250), 6);
    // The refill point moved to 1250, so 1300 is only half an interval on.
    assert_eq!(bucket.available_tokens(1300), 6);
    assert_eq!(bucket.available_tokens(1350), 9);
    assert_eq!(bucket.available_tokens(5000), 10);
}

#[test]
fn time_going_backwards_refills_nothing() {
    let mut bucket = TokenBucket::new(4, 4, 100, 1000);
    assert!(bucket.try_acquire(4, 1000));
    assert_eq!(bucket.available_tokens(10), 0);
    assert!(!bucket.try_acquire(1, 500));
}

#[test]
fn test_token_bucket_acquire_wait() {
    let mut bucket = TokenBucket::new(5, 5, 100, 0);
    assert!(bucket.try_acquire(5, 0));

    let wait = bucket.acquire(3, 0);
    assert_eq!(wait, Some(100));
    assert!(bucket.try_acquire(3, 100));
    assert_eq!(bucket.available_tokens(100), 2);
}

#[test]
fn acquire_takes_at_once_when_enough() {
    let mut bucket = TokenBucket::per_two_minutes(50, 50, 0);
    assert_eq!(bucket.acquire(20, 0), None);
    assert_eq!(bucket.available_tokens(0), 30);
}

#[test]
fn wait_time_rounds_up_to_whole_intervals() {
    let bucket = TokenBucket::new(10, 4, 250, 0);
    assert_eq!(bucket.calculate_wait_time(1), 250);
    assert_eq!(bucket.calculate_wait_time(4), 250);
    assert_eq!(bucket.calculate_wait_time(5), 500);
    assert_eq!(bucket.calculate_wait_time(9), 750);
}

#[test]
fn successes_within_one_interval_never_exceed_capacity() {
    let mut bucket = TokenBucket::new(3, 3, 1000, 0);
    let mut ok = 0;
    for t in 0..1000u64 {
        if bucket.try_acquire(1, t) {
            ok += 1;
        }
    }
    assert_eq!(ok, 3);
}

#[test]
fn successes_over_k_intervals_never_exceed_capacity_plus_k_rates() {
    let mut bucket = TokenBucket::new(5, 2, 100, 0);
    let mut ok = 0;
    for t in 0..=300u64 {
        if bucket.try_acquire(1, t) {
            ok += 1;
        }
    }
    assert!(ok <= 5 + 3 * 2);
    assert_eq!(ok, 10);
}

#[test]
fn a_window_straddling_a_refill_sees_capacity_plus_rate() {
    let mut bucket = TokenBucket::new(1, 1, 1000, 0);
    assert!(bucket.try_acquire(1, 999));
    assert!(bucket.try_acquire(1, 1000));
    assert!(!bucket.try_acquire(1, 1001));
}
