//! The state of the service, as it is put together at the start.

use crate::abuse::abuse_metrics::AbuseCounter;
use crate::abuse::abuse_metrics::AbuseMetrics;
use crate::abuse::abuse_metrics::IpFailedJoinTracker;
use crate::abuse::global_rate_limiter::GlobalRateLimiter;
use crate::abuse::ip_tracker::IpConnectionTracker;
use crate::abuse::join_rate_limiter::JoinRateLimiter;
use crate::abuse::temp_ban::TempBanConfig;
use crate::abuse::temp_ban::TempBanList;
use crate::auth::auth_rate_limiter::AuthRateLimiter;
use crate::auth::phrase::DummyVerifier;
use crate::auth::phrase::PhraseConfig;
use crate::auth::recovery_rate_limiter::RecoveryRateLimiter;
use crate::channel::channel_rate_limiter::ChannelRateLimiter;
use crate::channel::channel_rate_limiter::ChannelRateLimiterConfig;
use crate::channel::invite::InviteStore;
use crate::diagnostics::bug_report_rate_limiter::BugReportRateLimiter;
use crate::diagnostics::bug_report_rate_limiter::BugReportRateLimiterConfig;
use crate::ids::Uuid;
use crate::net::IpAddr;
use crate::table::Table;
use crate::table::TableKey;
use crate::text;
use crate::time;
use crate::time::Instant;
use vstd::prelude::*;

verus! {

/// The health of the media server.
#[derive(Debug)]
pub enum SfuHealth {
    Available,
    Unavailable(String),
    Starting { since: Instant },
}

/// Whether new members may join: only while the media server is available.
pub fn is_join_allowed(health: &SfuHealth) -> (r: bool)
    ensures
        r == (*health is Available),
{
    match health {
        SfuHealth::Available => true,
        _ => false,
    }
}

/// The settings that the environment gives, as far as it does.
pub struct Environment<'a> {
    pub require_invite_code: Option<&'a str>,
    pub require_tls: Option<&'a str>,
    pub max_connections_per_ip: Option<&'a str>,
    pub global_ws_upgrades_per_sec: Option<&'a str>,
    pub global_joins_per_sec: Option<&'a str>,
    pub temp_ban_threshold: Option<&'a str>,
    pub temp_ban_window_secs: Option<&'a str>,
    pub temp_ban_duration_secs: Option<&'a str>,
    pub temp_ban_max_entries: Option<&'a str>,
    pub channel_rate_limit_max: Option<&'a str>,
    pub channel_rate_limit_window_secs: Option<&'a str>,
    pub bug_report_rate_limit_max: Option<&'a str>,
    pub bug_report_rate_limit_window_secs: Option<&'a str>,
    pub test_metrics_token: Option<&'a str>,
}

/// Whether joining takes an invite code: unless the setting is `false`, in any
/// case, or `0`.
pub open spec fn invite_code_required(setting: Option<&str>) -> bool {
    match setting {
        Some(v) => !text::same_but_for_case(v@, "false"@) && v@ != "0"@,
        None => true,
    }
}

/// Whether requests must come over TLS: if the setting is `true`, in any case,
/// or `1`; without a setting, in every build but a debug build.
pub open spec fn tls_required(setting: Option<&str>, debug_build: bool) -> bool {
    match setting {
        Some(v) => text::same_but_for_case(v@, "true"@) || v@ == "1"@,
        None => !debug_build,
    }
}

/// Whether joining takes an invite code.
pub fn require_invite_code(setting: Option<&str>) -> (r: bool)
    ensures
        r == invite_code_required(setting),
{
    match setting {
        Some(v) => !text::eq_ignore_ascii_case(v, "false") && !text::str_eq(v, "0"),
        None => true,
    }
}

/// Whether requests must come over TLS.
pub fn require_tls(setting: Option<&str>, debug_build: bool) -> (r: bool)
    ensures
        r == tls_required(setting, debug_build),
{
    match setting {
        Some(v) => text::eq_ignore_ascii_case(v, "true") || text::str_eq(v, "1"),
        None => !debug_build,
    }
}

/// The state that the requests share.
pub struct AppState {
    pub next_peer_id: u64,
    pub sfu_health_status: SfuHealth,
    pub sfu_url: String,
    pub pending_shutdown: bool,
    pub invite_store: InviteStore,
    pub join_rate_limiter: JoinRateLimiter,
    pub require_invite_code: bool,
    pub abuse_metrics: AbuseMetrics,
    pub temp_ban_list: TempBanList,
    pub ip_connection_tracker: IpConnectionTracker,
    pub global_ws_limiter: GlobalRateLimiter,
    pub global_join_limiter: GlobalRateLimiter,
    pub jwt_secret: Vec<u8>,
    pub jwt_secret_previous: Option<Vec<u8>>,
    pub jwt_issuer: String,
    pub require_tls: bool,
    pub ip_failed_join_tracker: IpFailedJoinTracker,
    pub auth_jwt_secret: Vec<u8>,
    pub auth_jwt_secret_previous: Option<Vec<u8>>,
    pub auth_rate_limiter: AuthRateLimiter,
    pub refresh_token_ttl_days: u32,
    pub consumed_token_retention_hours: u64,
    pub channel_rate_limiter: ChannelRateLimiter,
    pub bug_report_rate_limiter: BugReportRateLimiter,
    pub github_bug_report_repo: String,
    pub refresh_token_pepper: Vec<u8>,
    pub refresh_token_pepper_previous: Option<Vec<u8>>,
    pub active_room_map: Table<Uuid, String>,
    pub dummy_verifier: DummyVerifier,
    pub pairing_code_pepper: Vec<u8>,
    pub recovery_rate_limiter: RecoveryRateLimiter,
    pub phrase_config: PhraseConfig,
    pub phrase_encryption_key: Vec<u8>,
    pub pairing_retention_hours: u64,
    pub revoked_token_retention_days: u64,
    pub metrics_token: String,
}

impl AppState {
    /// What holds of the state at all times.
    pub open spec fn wf(&self) -> bool {
        &&& self.invite_store.wf()
        &&& self.join_rate_limiter.wf()
        &&& self.temp_ban_list.wf()
        &&& self.ip_connection_tracker.wf()
        &&& self.ip_failed_join_tracker.wf()
        &&& self.auth_rate_limiter.wf()
        &&& self.channel_rate_limiter.wf()
        &&& self.bug_report_rate_limiter.wf()
        &&& self.active_room_map.wf()
        &&& self.recovery_rate_limiter.wf()
    }

    /// What the state has from the environment, and nothing of the past.
    pub open spec fn fresh(&self, env: Environment, debug_build: bool) -> bool {
        &&& self.next_peer_id == 1
        &&& self.sfu_health_status matches SfuHealth::Unavailable(reason)
        &&& reason@ == "not yet checked"@
        &&& !self.pending_shutdown
        &&& self.require_invite_code == invite_code_required(env.require_invite_code)
        &&& self.require_tls == tls_required(env.require_tls, debug_build)
        &&& forall|c: AbuseCounter| #[trigger] self.abuse_metrics@.value(c) == 0
        &&& self.temp_ban_list.bans() == Map::<IpAddr, nat>::empty()
        &&& self.temp_ban_list.violations() == Map::<IpAddr, Seq<nat>>::empty()
        &&& self.temp_ban_list.settings().threshold == text::setting(
            env.temp_ban_threshold,
            u32::MAX as nat,
            3,
        )
        &&& self.temp_ban_list.settings().window@ == text::setting(
            env.temp_ban_window_secs,
            u64::MAX as nat,
            300,
        ) * time::NANOS_PER_SEC
        &&& self.temp_ban_list.settings().ban_duration@ == text::setting(
            env.temp_ban_duration_secs,
            u64::MAX as nat,
            600,
        ) * time::NANOS_PER_SEC
        &&& self.temp_ban_list.settings().max_entries == text::setting(
            env.temp_ban_max_entries,
            usize::MAX as nat,
            1000,
        )
        &&& self.ip_connection_tracker.ceiling() == text::setting(
            env.max_connections_per_ip,
            u32::MAX as nat,
            10,
        )
        &&& forall|ip: IpAddr| #[trigger] self.ip_connection_tracker.held(ip) == 0
        &&& self.global_ws_limiter.ceiling() == text::setting(
            env.global_ws_upgrades_per_sec,
            u32::MAX as nat,
            100,
        )
        &&& self.global_join_limiter.ceiling() == text::setting(
            env.global_joins_per_sec,
            u32::MAX as nat,
            50,
        )
        &&& self.global_ws_limiter.epoch_and_tokens() == (0u32, self.global_ws_limiter.ceiling())
        &&& self.global_join_limiter.epoch_and_tokens() == (
            0u32,
            self.global_join_limiter.ceiling(),
        )
        &&& self.ip_failed_join_tracker.failures() == Map::<IpAddr, Seq<nat>>::empty()
        &&& self.ip_failed_join_tracker.limit() == 10
        &&& self.ip_failed_join_tracker.length() == 60 * time::NANOS_PER_SEC
        &&& self.channel_rate_limiter.limits().max_per_user == text::setting(
            env.channel_rate_limit_max,
            u32::MAX as nat,
            30,
        )
        &&& self.channel_rate_limiter.limits().window_secs == text::setting(
            env.channel_rate_limit_window_secs,
            u64::MAX as nat,
            60,
        )
        &&& self.channel_rate_limiter.logs() == Map::<Uuid, Seq<nat>>::empty()
        &&& self.bug_report_rate_limiter.limits().max_requests == text::setting(
            env.bug_report_rate_limit_max,
            u32::MAX as nat,
            5,
        )
        &&& self.bug_report_rate_limiter.limits().window@ == text::setting(
            env.bug_report_rate_limit_window_secs,
            u64::MAX as nat,
            3600,
        ) * time::NANOS_PER_SEC
        &&& self.bug_report_rate_limiter.by_ip() == Map::<IpAddr, Seq<nat>>::empty()
        &&& self.bug_report_rate_limiter.by_user() == Map::<Uuid, Seq<nat>>::empty()
        &&& self.active_room_map@ == Map::<Uuid, String>::empty()
        &&& self.metrics_token@ == (match env.test_metrics_token {
            Some(token) => token@,
            None => Seq::<char>::empty(),
        })
    }

    /// The state at the start of the service. What the environment settles is
    /// read here, once.
    pub fn new(
        env: &Environment,
        debug_build: bool,
        sfu_url: String,
        invite_store: InviteStore,
        join_rate_limiter: JoinRateLimiter,
        jwt_secret: Vec<u8>,
        jwt_secret_previous: Option<Vec<u8>>,
        jwt_issuer: String,
        auth_jwt_secret: Vec<u8>,
        auth_jwt_secret_previous: Option<Vec<u8>>,
        auth_rate_limiter: AuthRateLimiter,
        refresh_token_ttl_days: u32,
        consumed_token_retention_hours: u64,
        refresh_token_pepper: Vec<u8>,
        refresh_token_pepper_previous: Option<Vec<u8>>,
        dummy_verifier: DummyVerifier,
        pairing_code_pepper: Vec<u8>,
        recovery_rate_limiter: RecoveryRateLimiter,
        phrase_config: PhraseConfig,
        phrase_encryption_key: Vec<u8>,
        pairing_retention_hours: u64,
        revoked_token_retention_days: u64,
        github_bug_report_repo: String,
    ) -> (s: AppState)
        requires
            invite_store.wf(),
            join_rate_limiter.wf(),
            auth_rate_limiter.wf(),
            recovery_rate_limiter.wf(),
        ensures
            s.wf(),
            s.fresh(*env, debug_build),
            s.sfu_url == sfu_url,
            s.invite_store == invite_store,
            s.join_rate_limiter == join_rate_limiter,
            s.jwt_secret == jwt_secret,
            s.jwt_secret_previous == jwt_secret_previous,
            s.jwt_issuer == jwt_issuer,
            s.auth_jwt_secret == auth_jwt_secret,
            s.auth_jwt_secret_previous == auth_jwt_secret_previous,
            s.auth_rate_limiter == auth_rate_limiter,
            s.refresh_token_ttl_days == refresh_token_ttl_days,
            s.consumed_token_retention_hours == consumed_token_retention_hours,
            s.refresh_token_pepper == refresh_token_pepper,
            s.refresh_token_pepper_previous == refresh_token_pepper_previous,
            s.dummy_verifier == dummy_verifier,
            s.pairing_code_pepper == pairing_code_pepper,
            s.recovery_rate_limiter == recovery_rate_limiter,
            s.phrase_config == phrase_config,
            s.phrase_encryption_key == phrase_encryption_key,
            s.pairing_retention_hours == pairing_retention_hours,
            s.revoked_token_retention_days == revoked_token_retention_days,
            s.github_bug_report_repo == github_bug_report_repo,
    {
        let bans = TempBanConfig::from_env(
            env.temp_ban_threshold,
            env.temp_ban_window_secs,
            env.temp_ban_duration_secs,
            env.temp_ban_max_entries,
        );
        let channel_limits = ChannelRateLimiterConfig {
            max_per_user: text::u32_setting(env.channel_rate_limit_max, 30),
            window_secs: text::u64_setting(env.channel_rate_limit_window_secs, 60),
        };
        let report_limits = BugReportRateLimiterConfig::from_env(
            env.bug_report_rate_limit_max,
            env.bug_report_rate_limit_window_secs,
        );
        let metrics_token = match env.test_metrics_token {
            Some(token) => token.to_owned(),
            None => String::new(),
        };
        proof {
            reveal_strlit("");
            assert(metrics_token@ =~= (match env.test_metrics_token {
                Some(token) => token@,
                None => Seq::<char>::empty(),
            }));
        }
        AppState {
            next_peer_id: 1,
            sfu_health_status: SfuHealth::Unavailable("not yet checked".to_owned()),
            sfu_url,
            pending_shutdown: false,
            invite_store,
            join_rate_limiter,
            require_invite_code: require_invite_code(env.require_invite_code),
            abuse_metrics: AbuseMetrics::new(),
            temp_ban_list: TempBanList::new(bans),
            ip_connection_tracker: IpConnectionTracker::from_env(env.max_connections_per_ip),
            global_ws_limiter: GlobalRateLimiter::new(
                text::u32_setting(env.global_ws_upgrades_per_sec, 100),
            ),
            global_join_limiter: GlobalRateLimiter::new(
                text::u32_setting(env.global_joins_per_sec, 50),
            ),
            jwt_secret,
            jwt_secret_previous,
            jwt_issuer,
            require_tls: require_tls(env.require_tls, debug_build),
            ip_failed_join_tracker: IpFailedJoinTracker::default(),
            auth_jwt_secret,
            auth_jwt_secret_previous,
            auth_rate_limiter,
            refresh_token_ttl_days,
            consumed_token_retention_hours,
            channel_rate_limiter: ChannelRateLimiter::new(channel_limits),
            bug_report_rate_limiter: BugReportRateLimiter::new(report_limits),
            github_bug_report_repo,
            refresh_token_pepper,
            refresh_token_pepper_previous,
            active_room_map: Table::new(),
            dummy_verifier,
            pairing_code_pepper,
            recovery_rate_limiter,
            phrase_config,
            phrase_encryption_key,
            pairing_retention_hours,
            revoked_token_retention_days,
            metrics_token,
        }
    }

    /// The id of the next connection. It changes when a peer reconnects.
    pub fn next_peer_id(&mut self) -> (id: String)
        requires
            old(self).wf(),
        ensures
            id@ == peer_id_text(old(self).next_peer_id),
            *final(self) == (AppState {
                next_peer_id: old(self).next_peer_id.wrapping_add(1),
                ..*old(self)
            }),
            final(self).wf(),
    {
        let id: u64 = self.next_peer_id;
        self.next_peer_id = id.wrapping_add(1);
        let mut s = "peer-".to_owned();
        text::push_decimal(&mut s, id);
        s
    }

    /// Whether the media server is available for new members.
    pub fn is_sfu_available(&self) -> (r: bool)
        ensures
            r == (self.sfu_health_status is Available),
    {
        is_join_allowed(&self.sfu_health_status)
    }
}

/// The id that a number makes.
pub open spec fn peer_id_text(id: u64) -> Seq<char> {
    "peer-"@ + text::decimal(id as nat)
}

/// Different numbers make different ids, so no two connections share one until
/// the numbers run out.
pub proof fn law_peer_ids_differ(a: u64, b: u64)
    requires
        a != b,
    ensures
        peer_id_text(a) != peer_id_text(b),
{
    text::law_decimal_reads_back(a as nat);
    text::law_decimal_reads_back(b as nat);
    let n = "peer-"@.len() as int;
    assert(peer_id_text(a).skip(n) =~= text::decimal(a as nat));
    assert(peer_id_text(b).skip(n) =~= text::decimal(b as nat));
}

/// Without settings an invite code is required, and TLS in every build but a
/// debug build: what is not said falls on the safe side.
pub proof fn law_defaults_are_strict(debug_build: bool)
    ensures
        invite_code_required(None),
        tls_required(None, debug_build) == !debug_build,
{
}

/// New members join exactly while the media server is available.
pub proof fn law_members_join_while_the_server_is_there(
    state: &AppState,
    allowed: bool,
    available: bool,
)
    requires
        call_ensures(is_join_allowed, (&state.sfu_health_status,), allowed),
        call_ensures(AppState::is_sfu_available, (state,), available),
    ensures
        allowed == available,
        allowed <==> state.sfu_health_status == SfuHealth::Available,
{
}

/// Only `false`, in whatever case, and `0` do away with invite codes; only `true`,
/// in whatever case, and `1` ask for TLS, and in a build that is not for debugging
/// so does the absence of the setting.
pub proof fn law_switches_are_read(
    setting: &str,
    debug_build: bool,
    invites: bool,
    invites_unset: bool,
    tls: bool,
    tls_unset: bool,
    is_false: bool,
    is_true: bool,
)
    requires
        call_ensures(require_invite_code, (Some(setting),), invites),
        call_ensures(require_invite_code, (None,), invites_unset),
        call_ensures(require_tls, (Some(setting), debug_build), tls),
        call_ensures(require_tls, (None, debug_build), tls_unset),
        call_ensures(text::eq_ignore_ascii_case, (setting, "false"), is_false),
        call_ensures(text::eq_ignore_ascii_case, (setting, "true"), is_true),
    ensures
        invites <==> !is_false && setting@ != "0"@,
        invites_unset,
        tls <==> is_true || setting@ == "1"@,
        tls_unset <==> !debug_build,
{
}

/// Two connections get different ids, whatever came between them, until the numbers
/// run out: each id is its own number behind `peer-`, and the numbers go up by one.
pub proof fn law_connections_get_new_ids(
    first: &mut AppState,
    second: &mut AppState,
    a: String,
    b: String,
)
    requires
        call_ensures(AppState::next_peer_id, (first,), a),
        *old(second) == *final(first),
        call_ensures(AppState::next_peer_id, (second,), b),
        old(first).next_peer_id < u64::MAX,
    ensures
        a@ != b@,
        a@ == "peer-"@ + text::decimal(old(first).next_peer_id as nat),
        b@ == "peer-"@ + text::decimal((old(first).next_peer_id + 1) as nat),
{
    law_peer_ids_differ(old(first).next_peer_id, old(second).next_peer_id);
}

/// The service starts with nothing banned, counted or connected, and with the
/// limits that the environment sets, or else these: three violations in five
/// minutes ban for ten, ten connections for an address, a hundred connections and
/// fifty joins in a second, thirty requests about channels in a minute, five
/// reports in an hour.
pub proof fn law_the_service_starts_afresh(s: AppState, env: Environment, debug_build: bool, ip: IpAddr)
    requires
        s.fresh(env, debug_build),
    ensures
        s.next_peer_id == 1,
        !s.pending_shutdown,
        !(s.sfu_health_status is Available),
        !s.temp_ban_list.bans().contains_key(ip),
        s.ip_connection_tracker.held(ip) == 0,
        env.temp_ban_threshold is None ==> s.temp_ban_list.settings().threshold == 3,
        env.temp_ban_window_secs is None ==> s.temp_ban_list.settings().window@ == 300
            * 1_000_000_000,
        env.temp_ban_duration_secs is None ==> s.temp_ban_list.settings().ban_duration@ == 600
            * 1_000_000_000,
        env.temp_ban_max_entries is None ==> s.temp_ban_list.settings().max_entries == 1000,
        env.max_connections_per_ip is None ==> s.ip_connection_tracker.ceiling() == 10,
        env.global_ws_upgrades_per_sec is None ==> s.global_ws_limiter.ceiling() == 100,
        env.global_joins_per_sec is None ==> s.global_join_limiter.ceiling() == 50,
        env.channel_rate_limit_max is None ==> s.channel_rate_limiter.limits().max_per_user == 30,
        env.channel_rate_limit_window_secs is None ==> s.channel_rate_limiter.limits().window_secs
            == 60,
        env.bug_report_rate_limit_max is None ==> s.bug_report_rate_limiter.limits().max_requests
            == 5,
        env.bug_report_rate_limit_window_secs is None ==> s.bug_report_rate_limiter.limits().window@
            == 3600 * 1_000_000_000,
        env.test_metrics_token is Some ==> s.metrics_token@ == env.test_metrics_token->0@,
        env.test_metrics_token is None ==> s.metrics_token@.len() == 0,
{
}

/// That a setting is there and writes a number down.
pub open spec fn gives(setting: Option<&str>, n: nat) -> bool {
    setting is Some && setting->0@ == text::decimal(n)
}

/// Each limit is the number that its own setting gives.
pub proof fn law_settings_set_their_own_limits(
    s: AppState,
    env: Environment,
    debug_build: bool,
    n: nat,
)
    requires
        s.fresh(env, debug_build),
    ensures
        gives(env.temp_ban_threshold, n) && n <= u32::MAX ==> s.temp_ban_list.settings().threshold == n,
        gives(env.temp_ban_window_secs, n) && n <= u64::MAX ==> s.temp_ban_list.settings().window@ == n * 1_000_000_000,
        gives(env.temp_ban_duration_secs, n) && n <= u64::MAX ==> s.temp_ban_list.settings().ban_duration@ == n * 1_000_000_000,
        gives(env.temp_ban_max_entries, n) && n <= usize::MAX ==> s.temp_ban_list.settings().max_entries == n,
        gives(env.max_connections_per_ip, n) && n <= u32::MAX ==> s.ip_connection_tracker.ceiling() == n,
        gives(env.global_ws_upgrades_per_sec, n) && n <= u32::MAX ==> s.global_ws_limiter.ceiling() == n,
        gives(env.global_joins_per_sec, n) && n <= u32::MAX ==> s.global_join_limiter.ceiling() == n,
        gives(env.channel_rate_limit_max, n) && n <= u32::MAX ==> s.channel_rate_limiter.limits().max_per_user == n,
        gives(env.channel_rate_limit_window_secs, n) && n <= u64::MAX ==> s.channel_rate_limiter.limits().window_secs == n,
        gives(env.bug_report_rate_limit_max, n) && n <= u32::MAX ==> s.bug_report_rate_limiter.limits().max_requests == n,
        gives(env.bug_report_rate_limit_window_secs, n) && n <= u64::MAX ==> s.bug_report_rate_limiter.limits().window@ == n * 1_000_000_000,
{
    text::law_decimal_reads_back(n);
}

/// The service keeps each secret, each lifetime and each store as that which it was
/// given as.
pub proof fn law_the_service_keeps_what_it_is_given(
    env: &Environment,
    debug_build: bool,
    sfu_url: String,
    invite_store: InviteStore,
    join_rate_limiter: JoinRateLimiter,
    jwt_secret: Vec<u8>,
    jwt_secret_previous: Option<Vec<u8>>,
    jwt_issuer: String,
    auth_jwt_secret: Vec<u8>,
    auth_jwt_secret_previous: Option<Vec<u8>>,
    auth_rate_limiter: AuthRateLimiter,
    refresh_token_ttl_days: u32,
    consumed_token_retention_hours: u64,
    refresh_token_pepper: Vec<u8>,
    refresh_token_pepper_previous: Option<Vec<u8>>,
    dummy_verifier: DummyVerifier,
    pairing_code_pepper: Vec<u8>,
    recovery_rate_limiter: RecoveryRateLimiter,
    phrase_config: PhraseConfig,
    phrase_encryption_key: Vec<u8>,
    pairing_retention_hours: u64,
    revoked_token_retention_days: u64,
    github_bug_report_repo: String,
    s: AppState,
)
    requires
        call_ensures(
            AppState::new,
            (
                env,
                debug_build,
                sfu_url,
                invite_store,
                join_rate_limiter,
                jwt_secret,
                jwt_secret_previous,
                jwt_issuer,
                auth_jwt_secret,
                auth_jwt_secret_previous,
                auth_rate_limiter,
                refresh_token_ttl_days,
                consumed_token_retention_hours,
                refresh_token_pepper,
                refresh_token_pepper_previous,
                dummy_verifier,
                pairing_code_pepper,
                recovery_rate_limiter,
                phrase_config,
                phrase_encryption_key,
                pairing_retention_hours,
                revoked_token_retention_days,
                github_bug_report_repo,
            ),
            s,
        ),
    ensures
        s.fresh(*env, debug_build),
        s.sfu_url@ == sfu_url@,
        s.invite_store == invite_store,
        s.join_rate_limiter == join_rate_limiter,
        s.jwt_secret@ == jwt_secret@,
        s.jwt_secret_previous == jwt_secret_previous,
        s.jwt_issuer@ == jwt_issuer@,
        s.auth_jwt_secret@ == auth_jwt_secret@,
        s.auth_jwt_secret_previous == auth_jwt_secret_previous,
        s.auth_rate_limiter == auth_rate_limiter,
        s.refresh_token_ttl_days == refresh_token_ttl_days,
        s.consumed_token_retention_hours == consumed_token_retention_hours,
        s.refresh_token_pepper@ == refresh_token_pepper@,
        s.refresh_token_pepper_previous == refresh_token_pepper_previous,
        s.dummy_verifier == dummy_verifier,
        s.pairing_code_pepper@ == pairing_code_pepper@,
        s.recovery_rate_limiter == recovery_rate_limiter,
        s.phrase_config == phrase_config,
        s.phrase_encryption_key@ == phrase_encryption_key@,
        s.pairing_retention_hours == pairing_retention_hours,
        s.revoked_token_retention_days == revoked_token_retention_days,
        s.github_bug_report_repo@ == github_bug_report_repo@,
{
}

} // verus!
