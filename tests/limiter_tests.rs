use lol_crawler::config::RateLimitConfig;
use lol_crawler::limiter::{backoff_delay, extract_service_from_endpoint, PermitStep, RateLimiter};

fn test_config() -> RateLimitConfig {
    RateLimitConfig {
        application_limit_per_second: 20,
        application_limit_per_two_minutes: 100,
        max_concurrent_requests: 10,
        retry_delay_ms: 100,
        max_retries: 3,
    }
}

#[test]
fn test_rate_limiter_creation() {
    let mut limiter = RateLimiter::new(test_config(), 0);
    let status = limiter.get_rate_limit_status(0);
    assert_eq!(status.application_tokens_per_second, 20);
    assert_eq!(status.application_tokens_per_two_minutes, 100);
}

#[test]
fn test_basic_permit_acquisition() {
    let mut limiter = RateLimiter::new(test_config(), 0);
    assert_eq!(
        limiter.acquire_permit("/lol/summoner/v4/summoners/test", "na1", 0, 0),
        PermitStep::Granted
    );
    assert_eq!(limiter.acquire_permit("/lol/match/v5/matches/test", "na1", 0, 0), PermitStep::Granted);
}

#[test]
fn test_application_rate_limit_exhaustion() {
    let mut config = test_config();
    config.application_limit_per_second = 5;
    let mut limiter = RateLimiter::new(config, 0);
    for _ in 0..5 {
        assert_eq!(limiter.acquire_permit("/test", "na1", 0, 0), PermitStep::Granted);
    }
    let status = limiter.get_rate_limit_status(0);
    assert!(status.application_tokens_per_second < 5);
    assert_eq!(limiter.acquire_permit("/test", "na1", 0, 0), PermitStep::Wait(100));
    assert_eq!(limiter.acquire_permit("/test", "na1", 1, 0), PermitStep::Wait(200));
    assert_eq!(limiter.acquire_permit("/test", "na1", 2, 0), PermitStep::Exhausted);
    assert_eq!(limiter.acquire_permit("/test", "na1", 3, 0), PermitStep::Exhausted);
}

#[test]
fn test_method_rate_limiting() {
    let mut limiter = RateLimiter::new(test_config(), 0);
    let endpoint = "/lol/summoner/v4/summoners/test";
    let region = "na1";
    for _ in 0..20 {
        assert!(limiter.try_acquire_all(endpoint, region, 0));
    }
    assert!(!limiter.try_acquire_all(endpoint, region, 0));
}

#[test]
fn test_service_extraction() {
    assert_eq!(extract_service_from_endpoint("/lol/summoner/v4/summoners/test"), "summoner");
    assert_eq!(extract_service_from_endpoint("/lol/match/v5/matches/test"), "match");
    assert_eq!(extract_service_from_endpoint("/lol/spectator/v4/featured-games"), "spectator");
    assert_eq!(extract_service_from_endpoint("/invalid"), "unknown");
}

#[test]
fn test_header_parsing_app_limits() {
    let mut limiter = RateLimiter::new(test_config(), 0);
    limiter.update_limits_from_headers("/test", "na1", Some("10:1,50:120"), None, None, 0);
    let status = limiter.get_rate_limit_status(0);
    assert_eq!(status.application_tokens_per_second, 10);
    assert_eq!(status.application_tokens_per_two_minutes, 50);
}

#[test]
fn test_header_parsing_method_limits() {
    let mut limiter = RateLimiter::new(test_config(), 0);
    let endpoint = "/lol/summoner/v4/summoners/test";
    let region = "na1";
    limiter.update_limits_from_headers(endpoint, region, None, Some("5:1"), None, 0);
    for _ in 0..5 {
        assert!(limiter.try_acquire_all(endpoint, region, 0));
    }
    assert!(!limiter.try_acquire_all(endpoint, region, 0));
}

#[test]
fn header_tightening_scenario() {
    let mut limiter = RateLimiter::new(test_config(), 0);
    limiter.update_limits_from_headers("/x/y/z", "na1", Some("10:1,50:120"), None, None, 5);
    assert_eq!(limiter.get_rate_limit_status(5).application_tokens_per_second, 10);
    let mut ok = 0;
    let mut failed = 0;
    for i in 0..11 {
        if limiter.try_acquire_all(&format!("/lol/p{}/v1", i), "na1", 5) {
            ok += 1;
        } else {
            failed += 1;
        }
    }
    assert_eq!((ok, failed), (10, 1));
}

#[test]
fn service_header_sets_the_service_bucket() {
    let mut limiter = RateLimiter::new(test_config(), 0);
    limiter.update_limits_from_headers("/lol/match/v5/a", "euw1", None, None, Some("bad,2:10,3:1,9:1"), 0);
    assert!(limiter.try_acquire_all("/lol/match/v5/b", "euw1", 0));
    assert!(limiter.try_acquire_all("/lol/match/v5/c", "euw1", 0));
    assert!(limiter.try_acquire_all("/lol/match/v5/d", "euw1", 0));
    assert!(!limiter.try_acquire_all("/lol/match/v5/e", "euw1", 0));
    assert!(limiter.try_acquire_all("/lol/match/v5/e", "na1", 0));
}

#[test]
fn unknown_windows_and_bad_pairs_are_ignored() {
    let mut limiter = RateLimiter::new(test_config(), 0);
    limiter.update_limits_from_headers("/t", "na1", Some("7:60,x:1,3,:120"), None, None, 0);
    let status = limiter.get_rate_limit_status(0);
    assert_eq!(status.application_tokens_per_second, 20);
    assert_eq!(status.application_tokens_per_two_minutes, 100);
}

#[test]
fn test_429_response_handling() {
    let limiter = RateLimiter::new(test_config(), 0);
    assert_eq!(limiter.handle_429_response(Some(1)), 1000);
}

#[test]
fn test_429_response_handling_default() {
    let limiter = RateLimiter::new(test_config(), 0);
    assert_eq!(limiter.handle_429_response(None), 100);
}

#[test]
fn test_rate_limit_status() {
    let mut limiter = RateLimiter::new(test_config(), 0);
    let status = limiter.get_rate_limit_status(0);
    assert_eq!(status.application_tokens_per_second, 20);
    assert_eq!(status.application_tokens_per_two_minutes, 100);
    assert_eq!(status.method_limiters_count, 0);
    assert_eq!(status.service_limiters_count, 0);

    assert_eq!(limiter.acquire_permit("/lol/summoner/v4/test", "na1", 0, 0), PermitStep::Granted);
    assert_eq!(limiter.acquire_permit("/lol/match/v5/test", "euw1", 0, 0), PermitStep::Granted);

    let status = limiter.get_rate_limit_status(0);
    assert!(status.application_tokens_per_second < 20);
    assert_eq!(status.method_limiters_count, 2);
    assert_eq!(status.service_limiters_count, 2);
}

#[test]
fn test_exponential_backoff_behavior() {
    let mut config = test_config();
    config.retry_delay_ms = 50;
    config.max_retries = 2;
    let limiter = RateLimiter::new(config, 0);
    assert_eq!(limiter.handle_429_response(None), 50);
}

#[test]
fn backoff_doubles_and_saturates() {
    assert_eq!(backoff_delay(100, 0), 100);
    assert_eq!(backoff_delay(100, 1), 200);
    assert_eq!(backoff_delay(100, 3), 800);
    assert_eq!(backoff_delay(u64::MAX / 2, 2), u64::MAX);
    assert_eq!(backoff_delay(1, 64), u64::MAX);
}

#[test]
fn a_short_bucket_keeps_earlier_tokens_spent() {
    let mut config = test_config();
    config.application_limit_per_two_minutes = 1000;
    let mut limiter = RateLimiter::new(config, 0);
    limiter.update_limits_from_headers("/lol/a/v1", "na1", None, Some("1:1"), None, 0);
    assert!(limiter.try_acquire_all("/lol/a/v1", "na1", 0));
    assert!(!limiter.try_acquire_all("/lol/a/v1", "na1", 0));
    let status = limiter.get_rate_limit_status(0);
    assert_eq!(status.application_tokens_per_second, 18);
}

#[test]
fn limit_headers_without_a_one_second_pair_add_no_bucket() {
    let mut limiter = RateLimiter::new(test_config(), 0);
    limiter.update_limits_from_headers("/lol/a/v1/x", "na1", None, Some("5:10,bad"), Some(""), 0);
    let status = limiter.get_rate_limit_status(0);
    assert_eq!(status.method_limiters_count, 0);
    assert_eq!(status.service_limiters_count, 0);
    limiter.update_limits_from_headers("/lol/a/v1/x", "na1", None, Some("5:10,3:1"), None, 0);
    assert_eq!(limiter.get_rate_limit_status(0).method_limiters_count, 1);
}
