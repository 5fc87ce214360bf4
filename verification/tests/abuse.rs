use wavis_backend::abuse::abuse_metrics::{AbuseCounter, AbuseMetrics, IpFailedJoinTracker};
use wavis_backend::abuse::global_rate_limiter::{pack, take_token, unpack, GlobalRateLimiter};
use wavis_backend::abuse::ip_tracker::IpConnectionTracker;
use wavis_backend::abuse::join_rate_limiter::{JoinRateLimiter, JoinRateLimiterConfig};
use wavis_backend::abuse::sliding_window::SlidingWindow;
use wavis_backend::abuse::temp_ban::{TempBanConfig, TempBanList};
use wavis_backend::net::IpAddr;
use wavis_backend::signaling::JoinRejectionReason;
use wavis_backend::time::{Duration, Instant};

fn secs(n: u64) -> Duration {
    Duration::from_secs(n)
}

fn start() -> Instant {
    Instant::from_origin(secs(1_000_000))
}

fn later(t: Instant, n: u64) -> Instant {
    t.plus(secs(n))
}

fn earlier(t: Instant, n: u64) -> Instant {
    t.checked_sub(secs(n)).unwrap()
}

fn ip(n: u8) -> IpAddr {
    IpAddr::v4(10, 0, 0, n)
}

// Failed joins of an address.

#[test]
fn tracker_below_threshold_returns_none() {
    let mut tracker = IpFailedJoinTracker::new(3, secs(60));
    let now = start();
    assert!(tracker.record_failure(ip(1), now).is_none());
    assert!(tracker.record_failure(ip(1), now).is_none());
    assert!(tracker.record_failure(ip(1), now).is_none());
}

#[test]
fn tracker_exceeds_threshold_returns_count() {
    let mut tracker = IpFailedJoinTracker::new(3, secs(60));
    let now = start();
    for _ in 0..3 {
        tracker.record_failure(ip(1), now);
    }
    assert_eq!(tracker.record_failure(ip(1), now), Some(4));
}

#[test]
fn tracker_prunes_old_entries() {
    let mut tracker = IpFailedJoinTracker::new(3, secs(10));
    let now = start();
    for _ in 0..3 {
        tracker.record_failure(ip(1), now);
    }
    assert!(tracker.record_failure(ip(1), later(now, 11)).is_none());
}

#[test]
fn tracker_isolates_different_ips() {
    let mut tracker = IpFailedJoinTracker::new(2, secs(60));
    let now = start();
    tracker.record_failure(ip(1), now);
    tracker.record_failure(ip(1), now);
    assert!(tracker.record_failure(ip(2), now).is_none());
    assert_eq!(tracker.record_failure(ip(1), now), Some(3));
}

#[test]
fn tracker_default_has_expected_config() {
    let tracker = IpFailedJoinTracker::default();
    assert_eq!(tracker.window_secs(), 60);
}

#[test]
fn each_counter_counts_alone() {
    let mut metrics = AbuseMetrics::new();
    for _ in 0..7 {
        metrics.increment(AbuseCounter::TlsProtoRejections);
    }
    metrics.increment(AbuseCounter::WsBurstRejections);
    let s = metrics.snapshot();
    assert_eq!(s.tls_proto_rejections, 7);
    assert_eq!(s.ws_burst_rejections, 1);
    assert_eq!(s.ws_rate_limit_rejections, 0);
    assert_eq!(s.invite_usage_anomalies, 0);
    assert_eq!(AbuseMetrics::default().snapshot().tls_proto_rejections, 0);
}

#[test]
fn counter_wraps_after_the_largest_number() {
    let mut metrics = AbuseMetrics::new();
    metrics.state_machine_rejections = u64::MAX;
    metrics.increment(AbuseCounter::StateMachineRejections);
    assert_eq!(metrics.snapshot().state_machine_rejections, 0);
}

// Admissions per second.

#[test]
fn prop14b_correct_under_contention() {
    // Fifty requests read the same state; each exchanges it only if it has not
    // changed meanwhile, and tries again otherwise.
    let max_per_sec: u32 = 10;
    let now_unix: u64 = 1_700_000_000;
    let mut shared: u64 = pack(0, max_per_sec);
    let seen: Vec<u64> = (0..50).map(|_| shared).collect();
    let mut total_allowed = 0;
    for first in seen {
        let mut current = first;
        loop {
            let (ok, next) = take_token(current, max_per_sec, now_unix);
            if shared == current {
                shared = next;
                if ok {
                    total_allowed += 1;
                }
                break;
            }
            current = shared;
        }
    }
    assert_eq!(total_allowed, 10);
}

#[test]
fn zero_max_per_sec_always_rejects() {
    let mut limiter = GlobalRateLimiter::new(0);
    let _ = limiter.allow(1_000_000);
    assert!(!limiter.allow(1_000_000));
}

#[test]
fn single_token_allows_exactly_one() {
    let mut limiter = GlobalRateLimiter::new(1);
    let t = 1_700_000_000u64;
    assert!(limiter.allow(t));
    assert!(!limiter.allow(t));
    assert!(!limiter.allow(t));
}

#[test]
fn a_new_second_admits_again() {
    let mut limiter = GlobalRateLimiter::new(3);
    for t in [1_700_000_000u64, 1_700_000_001] {
        let admitted = (0..10).filter(|_| limiter.allow(t)).count();
        assert_eq!(admitted, 3);
    }
    limiter.reconfigure();
    assert!(limiter.allow(1_700_000_001));
}

#[test]
fn packed_state_reads_back() {
    assert_eq!(pack(1, 2), 0x1_0000_0002);
    assert_eq!(unpack(pack(u32::MAX, 7)), (u32::MAX, 7));
}

// Connections of an address.

fn local(a: u8) -> IpAddr {
    IpAddr::v4(127, 0, 0, a)
}

#[test]
fn try_add_allows_up_to_max() {
    let mut tracker = IpConnectionTracker::new(3);
    let addr = local(1);
    assert!(tracker.try_add(addr));
    assert!(tracker.try_add(addr));
    assert!(tracker.try_add(addr));
    assert!(!tracker.try_add(addr));
}

#[test]
fn count_reflects_adds() {
    let mut tracker = IpConnectionTracker::new(5);
    let addr = local(2);
    assert_eq!(tracker.count(addr), 0);
    tracker.try_add(addr);
    tracker.try_add(addr);
    assert_eq!(tracker.count(addr), 2);
}

#[test]
fn remove_decrements_and_cleans_up() {
    let mut tracker = IpConnectionTracker::new(5);
    let addr = local(3);
    tracker.try_add(addr);
    tracker.try_add(addr);
    tracker.remove(addr);
    assert_eq!(tracker.count(addr), 1);
    tracker.remove(addr);
    assert_eq!(tracker.count(addr), 0);
}

#[test]
fn remove_after_zero_is_noop() {
    let mut tracker = IpConnectionTracker::new(5);
    let addr = local(4);
    tracker.remove(addr);
    assert_eq!(tracker.count(addr), 0);
}

#[test]
fn remove_allows_new_add() {
    let mut tracker = IpConnectionTracker::new(1);
    let addr = local(5);
    assert!(tracker.try_add(addr));
    assert!(!tracker.try_add(addr));
    tracker.remove(addr);
    assert!(tracker.try_add(addr));
}

#[test]
fn different_ips_are_independent() {
    let mut tracker = IpConnectionTracker::new(1);
    let a = local(10);
    let b = local(11);
    assert!(tracker.try_add(a));
    assert!(tracker.try_add(b));
    assert!(!tracker.try_add(a));
    assert!(!tracker.try_add(b));
}

#[test]
fn ceiling_comes_from_the_setting() {
    assert_eq!(IpConnectionTracker::from_env(None).max_per_ip(), 10);
    assert_eq!(IpConnectionTracker::from_env(Some("25")).max_per_ip(), 25);
    assert_eq!(IpConnectionTracker::from_env(Some("+7")).max_per_ip(), 7);
    assert_eq!(IpConnectionTracker::from_env(Some("4294967295")).max_per_ip(), u32::MAX);
    for bad in ["", "+", "-1", " 5", "5 ", "4294967296", "ten", "99999999999999999999999"] {
        assert_eq!(IpConnectionTracker::from_env(Some(bad)).max_per_ip(), 10);
    }
    let mut tracker = IpConnectionTracker::new(1);
    tracker.try_add(local(1));
    tracker.set_max_per_ip(2);
    assert!(tracker.try_add(local(1)));
    assert!(!tracker.try_add(local(1)));
}

// Attempts to join.

fn isolated_config(threshold: u32, window: Duration, cooldown: Duration) -> JoinRateLimiterConfig {
    JoinRateLimiterConfig {
        ip_total_threshold: threshold,
        ip_total_window: window,
        ip_failed_threshold: threshold,
        ip_failed_window: window,
        code_threshold: threshold,
        code_window: window,
        room_threshold: threshold,
        room_window: window,
        connection_threshold: threshold,
        connection_window: window,
        cooldown,
    }
}

#[test]
fn different_ips_are_tracked_independently() {
    let cfg = JoinRateLimiterConfig {
        ip_total_threshold: 2,
        ip_total_window: secs(60),
        ..isolated_config(9999, secs(60), secs(60))
    };
    let mut rl = JoinRateLimiter::new(cfg);
    let now = start();
    rl.record_attempt(ip(1), None, "room", "c1", false, now);
    rl.record_attempt(ip(1), None, "room", "c1", false, now);
    assert_eq!(
        rl.check_join(ip(1), None, "room", "c1", now),
        Err(JoinRejectionReason::RateLimited)
    );
    assert!(rl.check_join(ip(2), None, "room", "c2", now).is_ok());
}

#[test]
fn window_expiry_clears_old_timestamps() {
    let window = Duration::from_millis(100);
    let cfg = JoinRateLimiterConfig {
        ip_total_threshold: 2,
        ..isolated_config(9999, window, Duration::from_millis(10))
    };
    let mut rl = JoinRateLimiter::new(cfg);
    let t0 = start();
    rl.record_attempt(ip(1), None, "room", "conn", false, t0);
    rl.record_attempt(ip(1), None, "room", "conn", false, t0);
    assert_eq!(
        rl.check_join(ip(1), None, "room", "conn", t0),
        Err(JoinRejectionReason::RateLimited)
    );
    let t1 = t0.plus(window).plus(Duration::from_millis(20));
    assert!(rl.check_join(ip(1), None, "room", "conn", t1).is_ok());
}

#[test]
fn each_limit_refuses_at_its_threshold() {
    let now = start();
    for dimension in 0..5 {
        let mut cfg = isolated_config(9999, secs(60), secs(60));
        match dimension {
            0 => cfg.ip_total_threshold = 4,
            1 => cfg.ip_failed_threshold = 4,
            2 => cfg.code_threshold = 4,
            3 => cfg.room_threshold = 4,
            _ => cfg.connection_threshold = 4,
        }
        let mut rl = JoinRateLimiter::new(cfg);
        for _ in 0..4 {
            assert!(rl.check_join(ip(1), Some("code"), "room1", "conn1", now).is_ok());
            rl.record_attempt(ip(1), Some("code"), "room1", "conn1", true, now);
        }
        assert_eq!(
            rl.check_join(ip(1), Some("code"), "room1", "conn1", now),
            Err(JoinRejectionReason::RateLimited)
        );
    }
}

#[test]
fn cooldown_outlasts_the_window() {
    let mut cfg = isolated_config(9999, secs(10), secs(120));
    cfg.ip_total_threshold = 2;
    let mut rl = JoinRateLimiter::new(cfg);
    let now = start();
    for _ in 0..3 {
        rl.record_attempt(ip(1), None, "room", "conn", false, now);
    }
    assert!(rl.check_join(ip(1), None, "room", "conn", later(now, 119)).is_err());
    assert!(rl.check_join(ip(1), None, "room", "conn", later(now, 120)).is_ok());
}

#[test]
fn successful_joins_do_not_count_as_failed() {
    let mut cfg = isolated_config(9999, secs(60), secs(60));
    cfg.ip_failed_threshold = 1;
    let mut rl = JoinRateLimiter::new(cfg);
    let now = start();
    for _ in 0..5 {
        rl.record_attempt(ip(1), None, "room", "conn", false, now);
    }
    assert!(rl.check_join(ip(1), None, "room", "conn", now).is_ok());
    rl.record_attempt(ip(1), None, "room", "conn", true, now);
    assert!(rl.check_join(ip(1), None, "room", "conn", now).is_err());
}

#[test]
fn stale_windows_are_dropped_and_new_limits_forget() {
    let mut rl = JoinRateLimiter::new(JoinRateLimiterConfig::default());
    let now = start();
    rl.check_join(ip(1), Some("code"), "room", "conn", now).unwrap();
    assert_eq!(rl.prune_all(now), 5);
    assert_eq!(rl.prune_all(now), 0);
    for _ in 0..6 {
        rl.record_attempt(ip(1), None, "room", "conn", false, now);
    }
    assert!(rl.check_join(ip(1), None, "room", "conn", now).is_err());
    rl.reconfigure(JoinRateLimiterConfig::default());
    assert!(rl.check_join(ip(1), None, "room", "conn", now).is_ok());
}

// A sliding window.

#[test]
fn count_prunes_expired_entries() {
    let now = start();
    let mut window = SlidingWindow::new(secs(60));
    window.add(earlier(now, 61));
    window.add(earlier(now, 30));
    assert_eq!(window.count(now), 1);
}

#[test]
fn seconds_until_retry_uses_oldest_in_window_entry() {
    let now = start();
    let mut window = SlidingWindow::new(secs(60));
    window.add(earlier(now, 20));
    window.add(earlier(now, 10));
    assert_eq!(window.seconds_until_retry(2, now), Some(40));
}

#[test]
fn seconds_until_retry_ignores_expired_entries_without_pruning() {
    let now = start();
    let mut window = SlidingWindow::new(secs(60));
    window.add(earlier(now, 61));
    window.add(earlier(now, 10));
    assert_eq!(window.seconds_until_retry(2, now), None);
}

#[test]
fn pruning_changes_no_wait() {
    let now = start();
    let mut window = SlidingWindow::new(secs(60));
    for age in [90, 61, 60, 20] {
        window.add(earlier(now, age));
    }
    assert_eq!(window.seconds_until_retry(2, now), Some(1));
    assert_eq!(window.seconds_until_retry(3, now), None);
    window.prune(now);
    assert_eq!(window.seconds_until_retry(2, now), Some(1));
    assert_eq!(window.seconds_until_retry(3, now), None);
    assert_eq!(window.count(now), 2);
}

#[test]
fn a_wait_is_at_least_a_second() {
    let now = start();
    let mut window = SlidingWindow::new(secs(60));
    window.add(earlier(now, 60));
    assert_eq!(window.seconds_until_retry(1, now), Some(1));
    assert_eq!(window.seconds_until_retry(0, earlier(now, 60)), Some(60));
    assert!(window.has_any());
}

// Temporary bans.

fn default_config() -> TempBanConfig {
    TempBanConfig {
        threshold: 3,
        window: secs(300),
        ban_duration: secs(600),
        max_entries: 10,
    }
}

#[test]
fn not_banned_initially() {
    let list = TempBanList::new(default_config());
    assert!(!list.is_banned(ip(1), start()));
}

#[test]
fn ban_triggers_after_threshold() {
    let mut list = TempBanList::new(default_config());
    for _ in 0..3 {
        list.record_violation(ip(1), start());
    }
    assert!(list.is_banned(ip(1), start()));
}

#[test]
fn no_ban_below_threshold() {
    let mut list = TempBanList::new(default_config());
    for _ in 0..2 {
        list.record_violation(ip(1), start());
    }
    assert!(!list.is_banned(ip(1), start()));
}

#[test]
fn ban_expires_with_clock_injection() {
    let config = TempBanConfig {
        threshold: 1,
        window: secs(300),
        ban_duration: secs(60),
        max_entries: 10,
    };
    let mut list = TempBanList::new(config);
    list.record_violation(ip(2), start());
    assert!(list.is_banned(ip(2), start()));
    assert!(!list.is_banned(ip(2), later(start(), 61)));
}

#[test]
fn running_bans_are_not_extended_and_old_violations_do_not_count() {
    let config =
        TempBanConfig { threshold: 2, window: secs(100), ban_duration: secs(60), max_entries: 1 };
    let mut list = TempBanList::new(config);
    list.record_violation(ip(1), start());
    list.record_violation(ip(1), later(start(), 100));
    assert!(!list.is_banned(ip(1), later(start(), 100)));
    list.record_violation(ip(1), later(start(), 150));
    assert!(list.is_banned(ip(1), later(start(), 150)));
    list.record_violation(ip(1), later(start(), 200));
    assert!(list.is_banned(ip(1), later(start(), 209)));
    assert!(!list.is_banned(ip(1), later(start(), 210)));

    list.record_violation(ip(2), later(start(), 205));
    list.record_violation(ip(2), later(start(), 206));
    assert!(!list.is_banned(ip(2), later(start(), 206)));
    list.record_violation(ip(2), later(start(), 210));
    assert!(list.is_banned(ip(2), later(start(), 269)));
    assert!(!list.is_banned(ip(1), later(start(), 210)));
    assert_eq!(list.ban_count(), 1);
}

#[test]
fn fail_open_when_full() {
    let config = TempBanConfig {
        threshold: 1,
        window: secs(300),
        ban_duration: secs(600),
        max_entries: 2,
    };
    let mut list = TempBanList::new(config);
    for i in 1..=2u8 {
        list.record_violation(ip(i), start());
    }
    list.record_violation(ip(3), start());
    assert!(!list.is_banned(ip(3), start()));
    assert_eq!(list.ban_count(), 2);
}

#[test]
fn prune_expired_returns_count() {
    let config = TempBanConfig {
        threshold: 1,
        window: secs(300),
        ban_duration: secs(60),
        max_entries: 10,
    };
    let mut list = TempBanList::new(config);
    list.record_violation(ip(1), start());
    list.record_violation(ip(2), start());
    assert_eq!(list.prune_expired(later(start(), 61)), 2);
}

#[test]
fn expired_bans_make_room() {
    let config = TempBanConfig {
        threshold: 1,
        window: secs(300),
        ban_duration: secs(60),
        max_entries: 1,
    };
    let mut list = TempBanList::new(config);
    list.record_violation(ip(1), start());
    list.record_violation(ip(2), later(start(), 60));
    assert!(list.is_banned(ip(2), later(start(), 60)));
    assert_eq!(list.ban_count(), 1);
}

#[test]
fn old_violations_do_not_count() {
    let mut list = TempBanList::new(default_config());
    list.record_violation(ip(1), start());
    list.record_violation(ip(1), start());
    list.record_violation(ip(1), later(start(), 300));
    assert!(!list.is_banned(ip(1), later(start(), 300)));
}

#[test]
fn ban_settings_have_defaults() {
    let mut list = TempBanList::new(TempBanConfig::from_env(None, Some("x"), Some("60"), None));
    for _ in 0..3 {
        list.record_violation(ip(1), start());
    }
    assert!(list.is_banned(ip(1), later(start(), 59)));
    assert!(!list.is_banned(ip(1), later(start(), 60)));
}
