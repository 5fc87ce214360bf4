use tokio::sync::mpsc;
use wavis_backend::app_state::{
    is_join_allowed, require_invite_code, require_tls, AppState, Environment, SfuHealth,
};
use wavis_backend::abuse::join_rate_limiter::{JoinRateLimiter, JoinRateLimiterConfig};
use wavis_backend::auth::auth_rate_limiter::{AuthRateLimiter, AuthRateLimiterConfig};
use wavis_backend::auth::phrase::{DummyVerifier, PhraseConfig};
use wavis_backend::auth::recovery_rate_limiter::{RecoveryRateLimiter, RecoveryRateLimiterConfig};
use wavis_backend::calendar::UtcTime;
use wavis_backend::channel::invite::{InviteStore, InviteStoreConfig};
use wavis_backend::chat::chat::{build_history_response, handle_chat_send, ChatMessageRow};
use wavis_backend::config_validation::{validate_security_config, SecurityConfig};
use wavis_backend::connections::LiveConnections;
use wavis_backend::http::{bearer_token, bears};
use wavis_backend::ids::Uuid;
use wavis_backend::json::{parse, Json};
use wavis_backend::net::IpAddr;
use wavis_backend::signaling::{SignalTarget, SignalingMessage};
use wavis_backend::text::{
    byte_prefix, eq_ignore_ascii_case, parse_number, signed_decimal_string, trim,
};
use wavis_backend::time::{Duration, Instant};

// Settings.

fn valid_config() -> SecurityConfig {
    SecurityConfig {
        global_ws_per_sec: 100,
        global_joins_per_sec: 50,
        invite_ttl_secs: 86400,
        token_ttl_secs: 600,
        ban_duration_secs: 600,
        rate_limit_window_secs: 10,
        bug_report_rate_limit_max: 5,
        bug_report_rate_limit_window_secs: 3600,
        github_bug_report_token_set: true,
        github_bug_report_repo_set: true,
    }
}

#[test]
fn valid_config_passes() {
    assert!(validate_security_config(&valid_config()).is_ok());
}

#[test]
fn zero_global_ws_per_sec_rejected() {
    let mut c = valid_config();
    c.global_ws_per_sec = 0;
    let err = validate_security_config(&c).unwrap_err();
    assert!(err.contains("GLOBAL_WS_UPGRADES_PER_SEC"));
}

#[test]
fn zero_global_joins_per_sec_rejected() {
    let mut c = valid_config();
    c.global_joins_per_sec = 0;
    let err = validate_security_config(&c).unwrap_err();
    assert!(err.contains("GLOBAL_JOINS_PER_SEC"));
}

#[test]
fn zero_invite_ttl_rejected() {
    let mut c = valid_config();
    c.invite_ttl_secs = 0;
    let err = validate_security_config(&c).unwrap_err();
    assert!(err.contains("invite TTL"));
}

#[test]
fn zero_token_ttl_rejected() {
    let mut c = valid_config();
    c.token_ttl_secs = 0;
    let err = validate_security_config(&c).unwrap_err();
    assert!(err.contains("token TTL"));
}

#[test]
fn zero_ban_duration_rejected() {
    let mut c = valid_config();
    c.ban_duration_secs = 0;
    let err = validate_security_config(&c).unwrap_err();
    assert!(err.contains("ban duration"));
}

#[test]
fn zero_rate_limit_window_rejected() {
    let mut c = valid_config();
    c.rate_limit_window_secs = 0;
    let err = validate_security_config(&c).unwrap_err();
    assert!(err.contains("rate limit window"));
}

#[test]
fn zero_bug_report_rate_limit_max_rejected() {
    let mut c = valid_config();
    c.bug_report_rate_limit_max = 0;
    let err = validate_security_config(&c).unwrap_err();
    assert!(err.contains("BUG_REPORT_RATE_LIMIT_MAX"));
}

#[test]
fn zero_bug_report_rate_limit_window_rejected() {
    let mut c = valid_config();
    c.bug_report_rate_limit_window_secs = 0;
    let err = validate_security_config(&c).unwrap_err();
    assert!(err.contains("BUG_REPORT_RATE_LIMIT_WINDOW_SECS"));
}

#[test]
fn empty_github_bug_report_token_rejected() {
    let mut c = valid_config();
    c.github_bug_report_token_set = false;
    let err = validate_security_config(&c).unwrap_err();
    assert!(err.contains("GITHUB_BUG_REPORT_TOKEN"));
}

#[test]
fn empty_github_bug_report_repo_rejected() {
    let mut c = valid_config();
    c.github_bug_report_repo_set = false;
    let err = validate_security_config(&c).unwrap_err();
    assert!(err.contains("GITHUB_BUG_REPORT_REPO"));
}

// Connections.

fn send_to(conns: &LiveConnections<mpsc::UnboundedSender<String>>, peer_id: &str) {
    if let Some(sender) = conns.sender_for(peer_id) {
        let _ = sender.send("peer_left".to_string());
    }
}

#[test]
fn register_replaces_stale_sender() {
    let mut conns = LiveConnections::new();
    let (tx1, mut rx1) = mpsc::unbounded_channel();
    let (tx2, mut rx2) = mpsc::unbounded_channel();
    conns.register("peer1".to_string(), tx1);
    conns.register("peer1".to_string(), tx2);
    send_to(&conns, "peer1");
    assert!(rx1.try_recv().is_err(), "the replaced sender must not receive further messages");
    assert!(
        rx2.try_recv().is_ok(),
        "the new sender must receive messages sent after registration"
    );
}

#[test]
fn send_to_closed_channel_is_noop() {
    let mut conns = LiveConnections::new();
    let (tx, rx) = mpsc::unbounded_channel();
    conns.register("peer1".to_string(), tx);
    drop(rx);
    send_to(&conns, "peer1");
}

#[test]
fn send_to_unknown_peer_is_noop() {
    let conns = LiveConnections::new();
    send_to(&conns, "ghost-peer");
    assert!(conns.sender_for("ghost-peer").is_none());
}

#[test]
fn unregister_is_idempotent() {
    let mut conns = LiveConnections::default();
    let (tx, mut rx) = mpsc::unbounded_channel();
    conns.register("peer1".to_string(), tx);
    conns.unregister("peer1");
    conns.unregister("peer1");
    send_to(&conns, "peer1");
    assert!(rx.try_recv().is_err(), "unregistered peer must not receive messages");
}

// Chat.

#[test]
fn empty_display_name_passed_through() {
    let signals = handle_chat_send("hello", "peer-abc", "", "2025-01-15T10:30:00Z", "msg-001");
    assert_eq!(signals.len(), 1);
    match &signals[0].msg {
        SignalingMessage::ChatMessage(p) => {
            assert_eq!(p.display_name, "", "domain must pass empty display_name through unchanged");
            assert_eq!(p.participant_id, "peer-abc");
            assert_eq!(p.text, "hello");
            assert_eq!(p.timestamp, "2025-01-15T10:30:00Z");
            assert_eq!(p.message_id.as_deref(), Some("msg-001"));
        }
        other => panic!("expected ChatMessage, got {:?}", other),
    }
    assert_eq!(signals[0].target, SignalTarget::BroadcastAll);
}

#[test]
fn history_keeps_its_order() {
    let row = |n: u128| ChatMessageRow {
        message_id: Uuid::from_u128(n),
        participant_id: "p".to_string(),
        display_name: "d".to_string(),
        text: format!("text {n}"),
        created_at: UtcTime::new(n as i64, 500_000_000).unwrap(),
    };
    match build_history_response(vec![row(1), row(2)]) {
        SignalingMessage::ChatHistoryResponse(h) => {
            assert_eq!(h.messages.len(), 2);
            assert_eq!(h.messages[0].message_id, "00000000-0000-0000-0000-000000000001");
            assert_eq!(h.messages[1].text, "text 2");
            assert_eq!(h.messages[1].timestamp, "1970-01-01T00:00:02.500+00:00");
        }
        other => panic!("expected the history, got {:?}", other),
    }
}

// The state of the service.

fn environment() -> Environment<'static> {
    Environment {
        require_invite_code: None,
        require_tls: None,
        max_connections_per_ip: None,
        global_ws_upgrades_per_sec: None,
        global_joins_per_sec: None,
        temp_ban_threshold: None,
        temp_ban_window_secs: None,
        temp_ban_duration_secs: None,
        temp_ban_max_entries: None,
        channel_rate_limit_max: None,
        channel_rate_limit_window_secs: None,
        bug_report_rate_limit_max: None,
        bug_report_rate_limit_window_secs: None,
        test_metrics_token: None,
    }
}

fn state(env: &Environment) -> AppState {
    AppState::new(
        env,
        false,
        "sfu://localhost".to_string(),
        InviteStore::new(InviteStoreConfig::default()),
        JoinRateLimiter::new(JoinRateLimiterConfig::default()),
        b"dev-secret-32-bytes-minimum!!!XX".to_vec(),
        None,
        "wavis-backend".to_string(),
        b"test-auth-secret-at-least-32-bytes!!".to_vec(),
        None,
        AuthRateLimiter::new(AuthRateLimiterConfig::default()),
        30,
        72,
        b"test-pepper-at-least-32-bytes!!!!!!".to_vec(),
        None,
        DummyVerifier { salt: vec![0; 16], verifier: vec![0; 32] },
        b"test-pairing-pepper-32-bytes!!XX".to_vec(),
        RecoveryRateLimiter::new(RecoveryRateLimiterConfig::default()),
        PhraseConfig::default(),
        vec![0u8; 32],
        24,
        7,
        "owner/test-repo".to_string(),
    )
}

#[test]
fn the_state_starts_fresh() {
    let mut s = state(&environment());
    assert!(s.require_invite_code);
    assert!(s.require_tls);
    assert!(!s.is_sfu_available());
    assert!(matches!(&s.sfu_health_status, SfuHealth::Unavailable(r) if r == "not yet checked"));
    assert_eq!(s.next_peer_id(), "peer-1");
    assert_eq!(s.next_peer_id(), "peer-2");
    s.next_peer_id = u64::MAX;
    assert_eq!(s.next_peer_id(), "peer-18446744073709551615");
    assert_eq!(s.next_peer_id(), "peer-0");
    assert_eq!(s.ip_connection_tracker.max_per_ip(), 10);
    let admitted = (0..200).filter(|_| s.global_ws_limiter.allow(1)).count();
    assert_eq!(admitted, 100);
    let admitted = (0..200).filter(|_| s.global_join_limiter.allow(1)).count();
    assert_eq!(admitted, 50);
    assert_eq!(s.metrics_token, "");
}

#[test]
fn the_environment_settles_the_limits() {
    let mut env = environment();
    env.require_invite_code = Some("FALSE");
    env.require_tls = Some("0");
    env.max_connections_per_ip = Some("3");
    env.channel_rate_limit_max = Some("1");
    env.temp_ban_threshold = Some("1");
    env.test_metrics_token = Some("token");
    let mut s = state(&env);
    assert!(!s.require_invite_code);
    assert!(!s.require_tls);
    assert_eq!(s.ip_connection_tracker.max_per_ip(), 3);
    let now = Instant::from_origin(Duration::from_secs(1_000));
    s.channel_rate_limiter.record(Uuid::nil(), now);
    assert!(!s.channel_rate_limiter.check(Uuid::nil(), now));
    s.temp_ban_list.record_violation(IpAddr::v4(1, 2, 3, 4), now);
    assert!(s.temp_ban_list.is_banned(IpAddr::v4(1, 2, 3, 4), now));
    assert_eq!(s.metrics_token, "token");
}

#[test]
fn switches_are_read() {
    for off in ["false", "False", "0"] {
        assert!(!require_invite_code(Some(off)));
    }
    for on in ["true", "", "no", "1", "00"] {
        assert!(require_invite_code(Some(on)));
    }
    assert!(require_tls(Some("TRUE"), true));
    assert!(require_tls(Some("1"), true));
    assert!(!require_tls(Some("yes"), false));
    assert!(require_tls(None, false));
    assert!(!require_tls(None, true));
}

#[test]
fn joins_need_an_available_server() {
    assert!(is_join_allowed(&SfuHealth::Available));
    assert!(!is_join_allowed(&SfuHealth::Unavailable("down".to_string())));
    let since = Instant::from_origin(Duration::from_secs(0));
    assert!(!is_join_allowed(&SfuHealth::Starting { since }));
}

// Plain values.

#[test]
fn bearer_headers_are_read() {
    assert_eq!(bearer_token("Bearer abc"), Some("abc"));
    assert_eq!(bearer_token("Bearer "), Some(""));
    assert_eq!(bearer_token("bearer abc"), None);
    assert!(bears(Some("Bearer abc"), "abc"));
    assert!(!bears(None, ""));
}

#[test]
fn numbers_are_read_and_written() {
    assert_eq!(parse_number("18446744073709551615", u64::MAX), Some(u64::MAX));
    assert_eq!(parse_number("18446744073709551616", u64::MAX), None);
    assert_eq!(parse_number("+007", 7), Some(7));
    assert_eq!(parse_number("8", 7), None);
    assert_eq!(parse_number("٣", 7), None);
    assert_eq!(signed_decimal_string(i32::MIN), "-2147483648");
    assert_eq!(signed_decimal_string(120), "120");
}

#[test]
fn texts_are_cut_and_compared() {
    assert_eq!(trim(" \u{2003}a b\u{85}\n"), "a b");
    assert_eq!(byte_prefix("aé", 2), None);
    assert_eq!(byte_prefix("aé", 3), Some("aé"));
    assert_eq!(byte_prefix("aé", 4), None);
    assert_eq!(byte_prefix("aé", 0), Some(""));
    assert!(eq_ignore_ascii_case("TrUe", "true"));
    assert!(!eq_ignore_ascii_case("ÄÖ", "äö"));
}

#[test]
fn json_becomes_plain_values() {
    let j = parse("{\"a\":[true,null,-3,4,0.5],\"b\":\"x\"}").unwrap();
    let items = j.field("a").unwrap().as_array().unwrap();
    assert!(matches!(items[0], Json::Bool(true)));
    assert!(matches!(items[1], Json::Null));
    assert!(matches!(items[2], Json::Negative(-3)));
    assert_eq!(items[3].as_u64(), Some(4));
    assert!(matches!(items[4], Json::Fraction));
    assert_eq!(j.field_str("b"), Some("x"));
    assert_eq!(j.field_str("c"), None);
    assert!(parse("{").is_none());
}

#[test]
fn times_are_bounded_and_ordered() {
    let t = UtcTime::new(10, 5).unwrap();
    assert!(UtcTime::new(0, 1_000_000_000).is_none());
    assert!(UtcTime::new(10, 4).unwrap().before(t));
    assert!(!t.before(t));
    assert_eq!(t.checked_add_secs(-20).unwrap().parts(), (-10, 5));
    assert!(t.checked_add_secs(i64::MAX).is_none());
    assert_eq!(t.plus_days(1).parts(), (86_410, 5));
    let a = Instant::from_origin(Duration::from_millis(1_500));
    assert_eq!(a.duration_since(Instant::from_origin(Duration::from_secs(2))).as_secs(), 0);
    assert!(a.checked_sub(Duration::from_secs(2)).is_none());
    assert!(a.checked_add(Duration::from_secs(u64::MAX)).is_none());
}
