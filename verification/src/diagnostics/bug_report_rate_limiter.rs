//! Limits on bug reports, by address and user.

use crate::abuse::request_window;
use crate::abuse::request_window::KeyedWindows;
use crate::ids::Uuid;
use crate::net::IpAddr;
use crate::table::TableKey;
use crate::text;
use crate::time;
use crate::time::Duration;
use crate::time::Instant;
use vstd::prelude::*;

verus! {

/// How many reports an address and a user may submit, and in what time.
pub struct BugReportRateLimiterConfig {
    pub max_requests: u32,
    pub window: Duration,
}

impl Default for BugReportRateLimiterConfig {
    fn default() -> (c: BugReportRateLimiterConfig)
        ensures
            c.max_requests == 5,
            c.window@ == 3600 * time::NANOS_PER_SEC,
    {
        BugReportRateLimiterConfig { max_requests: 5, window: Duration::from_secs(3600) }
    }
}

impl BugReportRateLimiterConfig {
    /// The configuration from settings; one that is absent or no number counts
    /// as five reports, in 3600 seconds.
    pub fn from_env(max_requests: Option<&str>, window_secs: Option<&str>) -> (c:
        BugReportRateLimiterConfig)
        ensures
            c.max_requests == text::setting(max_requests, u32::MAX as nat, 5),
            c.window@ == text::setting(window_secs, u64::MAX as nat, 3600) * time::NANOS_PER_SEC,
    {
        BugReportRateLimiterConfig {
            max_requests: text::u32_setting(max_requests, 5),
            window: Duration::from_secs(text::u64_setting(window_secs, 3600)),
        }
    }
}

/// Limits bug reports.
pub struct BugReportRateLimiter {
    config: BugReportRateLimiterConfig,
    ip_windows: KeyedWindows<IpAddr>,
    user_windows: KeyedWindows<Uuid>,
}

impl BugReportRateLimiter {
    /// What holds of every limiter.
    pub closed spec fn wf(&self) -> bool {
        self.ip_windows.wf() && self.user_windows.wf()
    }

    /// The limits.
    pub closed spec fn limits(&self) -> BugReportRateLimiterConfig {
        self.config
    }

    /// The reports of each address.
    pub closed spec fn by_ip(&self) -> Map<IpAddr, Seq<nat>> {
        self.ip_windows.logs()
    }

    /// The reports of each user.
    pub closed spec fn by_user(&self) -> Map<Uuid, Seq<nat>> {
        self.user_windows.logs()
    }

    /// A limiter that has seen nothing.
    pub fn new(config: BugReportRateLimiterConfig) -> (l: BugReportRateLimiter)
        ensures
            l.wf(),
            l.limits() == config,
            l.by_ip() == Map::<IpAddr, Seq<nat>>::empty(),
            l.by_user() == Map::<Uuid, Seq<nat>>::empty(),
    {
        BugReportRateLimiter { config, ip_windows: KeyedWindows::new(), user_windows: KeyedWindows::new() }
    }

    /// Whether one more report from an address is allowed.
    pub fn check_ip(&mut self, ip: IpAddr, now: Instant) -> (ok: bool)
        requires
            old(self).wf(),
        ensures
            final(self).wf(),
            final(self).limits() == old(self).limits(),
            final(self).by_ip() == request_window::asked_at(
                old(self).by_ip(),
                ip,
                old(self).limits().window@,
                now@,
            ),
            final(self).by_user() == old(self).by_user(),
            ok == request_window::admits(
                request_window::log_of(old(self).by_ip(), ip),
                old(self).limits().window@,
                old(self).limits().max_requests,
                now@,
            ),
    {
        self.ip_windows.check(ip, self.config.window, self.config.max_requests, now)
    }

    /// Records a report from an address.
    pub fn record_ip(&mut self, ip: IpAddr, now: Instant)
        requires
            old(self).wf(),
        ensures
            final(self).wf(),
            final(self).limits() == old(self).limits(),
            final(self).by_ip() == request_window::recorded_at(
                old(self).by_ip(),
                ip,
                now@,
            ),
            final(self).by_user() == old(self).by_user(),
    {
        self.ip_windows.record(ip, now);
    }

    /// The seconds until one more report from an address is allowed, if it is not now.
    pub fn seconds_until_retry_ip(&mut self, ip: IpAddr, now: Instant) -> (r: Option<u64>)
        requires
            old(self).wf(),
        ensures
            final(self).wf(),
            final(self).limits() == old(self).limits(),
            final(self).by_ip() == request_window::asked_at(
                old(self).by_ip(),
                ip,
                old(self).limits().window@,
                now@,
            ),
            final(self).by_user() == old(self).by_user(),
            r == request_window::retry_after(
                request_window::log_of(old(self).by_ip(), ip),
                old(self).limits().window@,
                old(self).limits().max_requests,
                now@,
            ),
    {
        self.ip_windows.seconds_until_retry(
            ip,
            self.config.window,
            self.config.max_requests,
            now,
        )
    }

    /// Whether one more report of a user is allowed.
    pub fn check_user(&mut self, user_id: Uuid, now: Instant) -> (ok: bool)
        requires
            old(self).wf(),
        ensures
            final(self).wf(),
            final(self).limits() == old(self).limits(),
            final(self).by_user() == request_window::asked_at(
                old(self).by_user(),
                user_id,
                old(self).limits().window@,
                now@,
            ),
            final(self).by_ip() == old(self).by_ip(),
            ok == request_window::admits(
                request_window::log_of(old(self).by_user(), user_id),
                old(self).limits().window@,
                old(self).limits().max_requests,
                now@,
            ),
    {
        self.user_windows.check(user_id, self.config.window, self.config.max_requests, now)
    }

    /// Records a report of a user.
    pub fn record_user(&mut self, user_id: Uuid, now: Instant)
        requires
            old(self).wf(),
        ensures
            final(self).wf(),
            final(self).limits() == old(self).limits(),
            final(self).by_user() == request_window::recorded_at(
                old(self).by_user(),
                user_id,
                now@,
            ),
            final(self).by_ip() == old(self).by_ip(),
    {
        self.user_windows.record(user_id, now);
    }

    /// The seconds until one more report of a user is allowed, if it is not now.
    pub fn seconds_until_retry_user(&mut self, user_id: Uuid, now: Instant) -> (r: Option<u64>)
        requires
            old(self).wf(),
        ensures
            final(self).wf(),
            final(self).limits() == old(self).limits(),
            final(self).by_user() == request_window::asked_at(
                old(self).by_user(),
                user_id,
                old(self).limits().window@,
                now@,
            ),
            final(self).by_ip() == old(self).by_ip(),
            r == request_window::retry_after(
                request_window::log_of(old(self).by_user(), user_id),
                old(self).limits().window@,
                old(self).limits().max_requests,
                now@,
            ),
    {
        self.user_windows.seconds_until_retry(
            user_id,
            self.config.window,
            self.config.max_requests,
            now,
        )
    }

    /// Drops what is older than the windows, and says how many keys went.
    pub fn prune_stale(&mut self, now: Instant) -> (n: usize)
        requires
            old(self).wf(),
            old(self).by_ip().len() + old(self).by_user().len() <= usize::MAX,
        ensures
            final(self).wf(),
            final(self).limits() == old(self).limits(),
            final(self).by_ip() == request_window::pruned(
                old(self).by_ip(),
                old(self).limits().window@,
                now@,
            ),
            final(self).by_user() == request_window::pruned(
                old(self).by_user(),
                old(self).limits().window@,
                now@,
            ),
            n == old(self).by_ip().len() - final(self).by_ip().len() + old(
                self,
            ).by_user().len() - final(self).by_user().len(),
    {
        let first: usize = self.ip_windows.prune_stale(self.config.window, now);
        let second: usize = self.user_windows.prune_stale(self.config.window, now);
        first + second
    }
}

/// Every report counts toward its address, and only there: one more is allowed
/// exactly where fewer than the limit are younger than the window, and a wait is
/// told exactly where it is not.
pub proof fn law_reports_from_an_address_are_limited(
    recording: &mut BugReportRateLimiter,
    checking: &mut BugReportRateLimiter,
    waiting: &mut BugReportRateLimiter,
    key: IpAddr,
    who: IpAddr,
    now: Instant,
    later: Instant,
    ok: bool,
    wait: Option<u64>,
)
    requires
        call_ensures(BugReportRateLimiter::record_ip, (recording, key, now), ()),
        *old(checking) == *final(recording),
        call_ensures(BugReportRateLimiter::check_ip, (checking, who, later), ok),
        *old(waiting) == *final(recording),
        call_ensures(BugReportRateLimiter::seconds_until_retry_ip, (waiting, who, later), wait),
        request_window::log_of(final(recording).by_ip(), who).len() <= u32::MAX,
        old(recording).limits().window@ <= time::MAX_NANOS,
    ensures
        request_window::log_of(final(recording).by_ip(), who) == if who == key {
            request_window::log_of(old(recording).by_ip(), who).push(now@)
        } else {
            request_window::log_of(old(recording).by_ip(), who)
        },
        final(recording).by_user() == old(recording).by_user(),
        final(recording).limits() == old(recording).limits(),
        ok <==> request_window::young(
            request_window::log_of(final(recording).by_ip(), who),
            old(recording).limits().window@,
            later@,
        ) < old(recording).limits().max_requests,
        old(recording).limits().max_requests > 0 ==> (wait is None <==> ok),
{
    let c = old(recording).limits();
    let before = old(recording).by_ip();
    assert(final(recording).by_ip() == request_window::recorded_at(before, key, now@));
    if who == key {
        assert(request_window::log_of(final(recording).by_ip(), who) =~= request_window::log_of(
            before,
            who,
        ).push(now@));
    } else {
        request_window::law_keys_are_independent(before, key, who, 0, now@);
    }
    let log = request_window::log_of(final(recording).by_ip(), who);
    let window = old(recording).limits().window@;
    log.lemma_filter_len(|t: nat| time::elapsed(later@, t) < window);
    let n = request_window::young(log, window, later@);
    assert(n as u32 == n);
    if c.max_requests > 0 {
        request_window::law_wait_iff_refused(log, window, c.max_requests, later@);
    }
}

/// Every report counts toward its user, and only there: one more is allowed
/// exactly where fewer than the limit are younger than the window, and a wait is
/// told exactly where it is not.
pub proof fn law_reports_of_a_user_are_limited(
    recording: &mut BugReportRateLimiter,
    checking: &mut BugReportRateLimiter,
    waiting: &mut BugReportRateLimiter,
    key: Uuid,
    who: Uuid,
    now: Instant,
    later: Instant,
    ok: bool,
    wait: Option<u64>,
)
    requires
        call_ensures(BugReportRateLimiter::record_user, (recording, key, now), ()),
        *old(checking) == *final(recording),
        call_ensures(BugReportRateLimiter::check_user, (checking, who, later), ok),
        *old(waiting) == *final(recording),
        call_ensures(BugReportRateLimiter::seconds_until_retry_user, (waiting, who, later), wait),
        request_window::log_of(final(recording).by_user(), who).len() <= u32::MAX,
        old(recording).limits().window@ <= time::MAX_NANOS,
    ensures
        request_window::log_of(final(recording).by_user(), who) == if who == key {
            request_window::log_of(old(recording).by_user(), who).push(now@)
        } else {
            request_window::log_of(old(recording).by_user(), who)
        },
        final(recording).by_ip() == old(recording).by_ip(),
        final(recording).limits() == old(recording).limits(),
        ok <==> request_window::young(
            request_window::log_of(final(recording).by_user(), who),
            old(recording).limits().window@,
            later@,
        ) < old(recording).limits().max_requests,
        old(recording).limits().max_requests > 0 ==> (wait is None <==> ok),
{
    let c = old(recording).limits();
    let before = old(recording).by_user();
    assert(final(recording).by_user() == request_window::recorded_at(before, key, now@));
    if who == key {
        assert(request_window::log_of(final(recording).by_user(), who) =~= request_window::log_of(
            before,
            who,
        ).push(now@));
    } else {
        request_window::law_keys_are_independent(before, key, who, 0, now@);
    }
    let log = request_window::log_of(final(recording).by_user(), who);
    let window = old(recording).limits().window@;
    log.lemma_filter_len(|t: nat| time::elapsed(later@, t) < window);
    let n = request_window::young(log, window, later@);
    assert(n as u32 == n);
    if c.max_requests > 0 {
        request_window::law_wait_iff_refused(log, window, c.max_requests, later@);
    }
}

/// By default five reports are taken in an hour; settings that are numbers say
/// otherwise.
pub proof fn law_limits_as_set(
    c: BugReportRateLimiterConfig,
    max: &str,
    secs: &str,
    n: nat,
    m: nat,
    of_settings: BugReportRateLimiterConfig,
    unset: BugReportRateLimiterConfig,
)
    requires
        call_ensures(BugReportRateLimiterConfig::default, (), c),
        call_ensures(BugReportRateLimiterConfig::from_env, (Some(max), Some(secs)), of_settings),
        call_ensures(BugReportRateLimiterConfig::from_env, (None, None), unset),
        max@ == text::decimal(n),
        n <= u32::MAX,
        secs@ == text::decimal(m),
        m <= u64::MAX,
    ensures
        c.max_requests == 5 && unset.max_requests == 5,
        c.window@ == 3600 * 1_000_000_000 && unset.window@ == 3600 * 1_000_000_000,
        of_settings.max_requests == n,
        of_settings.window@ == m * 1_000_000_000,
{
    text::law_decimal_reads_back(n);
    text::law_decimal_reads_back(m);
}

} // verus!
