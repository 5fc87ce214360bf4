use wavis_backend::auth::auth_rate_limiter::{AuthRateLimiter, AuthRateLimiterConfig};
use wavis_backend::auth::recovery_rate_limiter::{RecoveryRateLimiter, RecoveryRateLimiterConfig};
use wavis_backend::channel::channel_rate_limiter::{ChannelRateLimiter, ChannelRateLimiterConfig};
use wavis_backend::diagnostics::bug_report_rate_limiter::{
    BugReportRateLimiter, BugReportRateLimiterConfig,
};
use wavis_backend::ids::Uuid;
use wavis_backend::net::IpAddr;
use wavis_backend::time::{Duration, Instant};

fn start() -> Instant {
    Instant::from_origin(Duration::from_secs(1_000_000))
}

fn later(n: u64) -> Instant {
    start().plus(Duration::from_secs(n))
}

fn ip(n: u8) -> IpAddr {
    IpAddr::v4(10, 0, 0, n)
}

fn some_user() -> Uuid {
    Uuid::from_u128(uuid::Uuid::new_v4().as_u128())
}

// Recoveries.

fn recovery() -> RecoveryRateLimiter {
    RecoveryRateLimiter::new(RecoveryRateLimiterConfig::default())
}

#[test]
fn recovery_rate_limiter_ip_allows_up_to_max_then_rejects() {
    let mut limiter = recovery();
    let now = start();
    for _ in 0..5 {
        assert!(limiter.check_ip(ip(1), now));
        limiter.record_ip(ip(1), now);
    }
    assert!(!limiter.check_ip(ip(1), now));
}

#[test]
fn recovery_rate_limiter_ip_resets_after_window() {
    let mut limiter = recovery();
    let now = start();
    for _ in 0..5 {
        limiter.record_ip(ip(1), now);
    }
    assert!(!limiter.check_ip(ip(1), now));
    assert!(limiter.check_ip(ip(1), later(3601)));
}

#[test]
fn rid_allows_up_to_max_then_rejects() {
    let mut limiter = recovery();
    let now = start();
    for _ in 0..3 {
        assert!(limiter.check_recovery_id("wvs-ABCD-EFGH", now));
        limiter.record_recovery_id("wvs-ABCD-EFGH", now);
    }
    assert!(!limiter.check_recovery_id("wvs-ABCD-EFGH", now));
}

#[test]
fn rid_resets_after_window() {
    let mut limiter = recovery();
    let now = start();
    for _ in 0..3 {
        limiter.record_recovery_id("wvs-ABCD-EFGH", now);
    }
    assert!(!limiter.check_recovery_id("wvs-ABCD-EFGH", now));
    assert!(limiter.check_recovery_id("wvs-ABCD-EFGH", later(3601)));
}

#[test]
fn recovery_rate_limiter_different_ips_tracked_independently() {
    let mut limiter = recovery();
    let now = start();
    for _ in 0..5 {
        limiter.record_ip(ip(1), now);
    }
    assert!(!limiter.check_ip(ip(1), now));
    assert!(limiter.check_ip(ip(2), now));
}

#[test]
fn different_rids_tracked_independently() {
    let mut limiter = recovery();
    let now = start();
    for _ in 0..3 {
        limiter.record_recovery_id("wvs-AAAA-BBBB", now);
    }
    assert!(!limiter.check_recovery_id("wvs-AAAA-BBBB", now));
    assert!(limiter.check_recovery_id("wvs-CCCC-DDDD", now));
}

#[test]
fn recovery_rate_limiter_prune_stale_removes_expired_entries() {
    let mut limiter = recovery();
    let now = start();
    limiter.record_ip(ip(1), now);
    limiter.record_recovery_id("wvs-AAAA-BBBB", now);
    assert_eq!(limiter.prune_stale(later(3601)), 2);
}

#[test]
fn recovery_limits_can_be_cleared_and_tell_the_wait() {
    let mut limiter = recovery();
    let now = start();
    for _ in 0..5 {
        limiter.record_ip(ip(1), now);
    }
    assert_eq!(limiter.seconds_until_ip(ip(1), later(600)), Some(3000));
    assert_eq!(limiter.seconds_until_recovery_id("wvs-AAAA-BBBB", now), None);
    limiter.clear();
    assert_eq!(limiter.seconds_until_ip(ip(1), now), None);
}

// Registrations and refreshes.

#[test]
fn registrations_and_refreshes_are_limited_apart() {
    let mut limiter = AuthRateLimiter::new(AuthRateLimiterConfig::default());
    let now = start();
    for _ in 0..5 {
        assert!(limiter.check_register(ip(1), now));
        limiter.record_register(ip(1), now);
    }
    assert!(!limiter.check_register(ip(1), now));
    assert_eq!(limiter.seconds_until_register(ip(1), now), Some(3600));
    for _ in 0..30 {
        assert!(limiter.check_refresh(ip(1), now));
        limiter.record_refresh(ip(1), now);
    }
    assert!(!limiter.check_refresh(ip(1), now));
    assert_eq!(limiter.seconds_until_refresh(ip(1), later(30)), Some(30));
    assert!(limiter.check_refresh(ip(1), later(60)));
    assert_eq!(limiter.prune_stale(later(60)), 1);
    limiter.clear();
    assert!(limiter.check_register(ip(1), now));
}

// Bug reports.

fn reports() -> BugReportRateLimiter {
    BugReportRateLimiter::new(BugReportRateLimiterConfig::default())
}

#[test]
fn bug_report_rate_limiter_ip_allows_up_to_max_then_rejects() {
    let mut limiter = reports();
    let now = start();
    for _ in 0..5 {
        assert!(limiter.check_ip(ip(1), now));
        limiter.record_ip(ip(1), now);
    }
    assert!(!limiter.check_ip(ip(1), now));
}

#[test]
fn bug_report_rate_limiter_ip_resets_after_window() {
    let mut limiter = reports();
    let now = start();
    for _ in 0..5 {
        limiter.record_ip(ip(1), now);
    }
    assert!(!limiter.check_ip(ip(1), now));
    assert!(limiter.check_ip(ip(1), later(3601)));
}

#[test]
fn user_allows_up_to_max_then_rejects() {
    let mut limiter = reports();
    let user_id = some_user();
    let now = start();
    for _ in 0..5 {
        assert!(limiter.check_user(user_id, now));
        limiter.record_user(user_id, now);
    }
    assert!(!limiter.check_user(user_id, now));
}

#[test]
fn user_resets_after_window() {
    let mut limiter = reports();
    let user_id = some_user();
    let now = start();
    for _ in 0..5 {
        limiter.record_user(user_id, now);
    }
    assert!(!limiter.check_user(user_id, now));
    assert!(limiter.check_user(user_id, later(3601)));
}

#[test]
fn bug_report_rate_limiter_different_ips_tracked_independently() {
    let mut limiter = reports();
    let now = start();
    for _ in 0..5 {
        limiter.record_ip(ip(1), now);
    }
    assert!(!limiter.check_ip(ip(1), now));
    assert!(limiter.check_ip(ip(2), now));
}

#[test]
fn different_users_tracked_independently() {
    let mut limiter = reports();
    let user1 = some_user();
    let user2 = some_user();
    let now = start();
    for _ in 0..5 {
        limiter.record_user(user1, now);
    }
    assert!(!limiter.check_user(user1, now));
    assert!(limiter.check_user(user2, now));
}

#[test]
fn bug_report_rate_limiter_prune_stale_removes_expired_entries() {
    let mut limiter = reports();
    let now = start();
    limiter.record_ip(ip(1), now);
    limiter.record_user(some_user(), now);
    assert_eq!(limiter.prune_stale(later(3601)), 2);
}

#[test]
fn seconds_until_retry_ip_returns_none_when_under_limit() {
    let mut limiter = reports();
    let now = start();
    limiter.record_ip(ip(1), now);
    assert!(limiter.seconds_until_retry_ip(ip(1), now).is_none());
}

#[test]
fn seconds_until_retry_ip_returns_seconds_when_at_limit() {
    let mut limiter = reports();
    let now = start();
    for _ in 0..5 {
        limiter.record_ip(ip(1), now);
    }
    let retry = limiter.seconds_until_retry_ip(ip(1), now);
    assert!(retry.is_some());
    assert!(retry.unwrap() <= 3600);
}

#[test]
fn seconds_until_retry_user_returns_none_when_under_limit() {
    let mut limiter = reports();
    let user_id = some_user();
    let now = start();
    limiter.record_user(user_id, now);
    assert!(limiter.seconds_until_retry_user(user_id, now).is_none());
}

#[test]
fn seconds_until_retry_user_returns_seconds_when_at_limit() {
    let mut limiter = reports();
    let user_id = some_user();
    let now = start();
    for _ in 0..5 {
        limiter.record_user(user_id, now);
    }
    let retry = limiter.seconds_until_retry_user(user_id, now);
    assert!(retry.is_some());
    assert!(retry.unwrap() <= 3600);
}

#[test]
fn report_limits_come_from_settings() {
    let config = BugReportRateLimiterConfig::from_env(Some("1"), Some("10"));
    let mut limiter = BugReportRateLimiter::new(config);
    limiter.record_ip(ip(1), start());
    assert_eq!(limiter.seconds_until_retry_ip(ip(1), later(4)), Some(6));
    assert!(limiter.check_ip(ip(1), later(10)));
    let config = BugReportRateLimiterConfig::from_env(None, Some(""));
    assert_eq!(config.max_requests, 5);
    assert_eq!(config.window.as_secs(), 3600);
}

// Requests on channels.

#[test]
fn seconds_until_retry_returns_some_at_limit() {
    let mut limiter = ChannelRateLimiter::new(ChannelRateLimiterConfig::default());
    let user_id = some_user();
    let now = start();
    for _ in 0..30 {
        limiter.record(user_id, now);
    }
    assert!(limiter.seconds_until_retry(user_id, now).is_some());
}

#[test]
fn channel_requests_are_limited_per_user() {
    let config = ChannelRateLimiterConfig { max_per_user: 2, window_secs: 60 };
    let mut limiter = ChannelRateLimiter::new(config);
    let (a, b) = (some_user(), some_user());
    for _ in 0..2 {
        assert!(limiter.check(a, start()));
        limiter.record(a, start());
    }
    assert!(!limiter.check(a, later(60)));
    assert!(limiter.check(b, start()));
    assert_eq!(limiter.seconds_until_retry(a, later(20)), Some(40));
    limiter.record(b, later(61));
    // The requests of the first are too old by now; those of the second are not.
    assert_eq!(limiter.prune_stale(later(61)), 1);
    assert!(limiter.check(a, later(61)));
    limiter.clear();
    assert_eq!(limiter.prune_stale(start()), 0);
}

#[test]
fn durations_count_nanoseconds() {
    assert_eq!(Duration::from_nanos(1_999_999_999).as_secs(), 1);
    assert_eq!(Duration::from_millis(2_500).as_secs(), 2);
    assert_eq!(
        Duration::from_secs(3).minus(Duration::from_nanos(1)).as_secs(),
        2
    );
}
