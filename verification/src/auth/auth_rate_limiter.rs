//! Limits on registrations and token refreshes, by address.

use crate::abuse::request_window;
use crate::abuse::request_window::KeyedWindows;
use crate::net::IpAddr;
use crate::table::TableKey;
use crate::time;
use crate::time::Duration;
use crate::time::Instant;
use vstd::prelude::*;

verus! {

/// How many registrations and refreshes an address may make, and in what time.
pub struct AuthRateLimiterConfig {
    pub register_max_per_ip: u32,
    pub register_window_secs: u64,
    pub refresh_max_per_ip: u32,
    pub refresh_window_secs: u64,
}

impl Default for AuthRateLimiterConfig {
    fn default() -> (c: AuthRateLimiterConfig)
        ensures
            c.register_max_per_ip == 5,
            c.register_window_secs == 3600,
            c.refresh_max_per_ip == 30,
            c.refresh_window_secs == 60,
    {
        AuthRateLimiterConfig {
            register_max_per_ip: 5,
            register_window_secs: 3600,
            refresh_max_per_ip: 30,
            refresh_window_secs: 60,
        }
    }
}

/// Limits registrations and token refreshes.
pub struct AuthRateLimiter {
    config: AuthRateLimiterConfig,
    register_windows: KeyedWindows<IpAddr>,
    refresh_windows: KeyedWindows<IpAddr>,
}

impl AuthRateLimiter {
    /// What holds of every limiter.
    pub closed spec fn wf(&self) -> bool {
        self.register_windows.wf() && self.refresh_windows.wf()
    }

    /// The limits.
    pub closed spec fn limits(&self) -> AuthRateLimiterConfig {
        self.config
    }

    /// The registrations on record.
    pub closed spec fn registers(&self) -> Map<IpAddr, Seq<nat>> {
        self.register_windows.logs()
    }

    /// The refreshes on record.
    pub closed spec fn refreshes(&self) -> Map<IpAddr, Seq<nat>> {
        self.refresh_windows.logs()
    }

    /// A limiter that has seen nothing.
    pub fn new(config: AuthRateLimiterConfig) -> (l: AuthRateLimiter)
        ensures
            l.wf(),
            l.limits() == config,
            l.registers() == Map::<IpAddr, Seq<nat>>::empty(),
            l.refreshes() == Map::<IpAddr, Seq<nat>>::empty(),
    {
        AuthRateLimiter { config, register_windows: KeyedWindows::new(), refresh_windows: KeyedWindows::new() }
    }

    /// Whether one more registration is allowed.
    pub fn check_register(&mut self, ip: IpAddr, now: Instant) -> (ok: bool)
        requires
            old(self).wf(),
        ensures
            final(self).wf(),
            final(self).limits() == old(self).limits(),
            final(self).registers() == request_window::asked_at(
                old(self).registers(),
                ip,
                (old(self).limits().register_window_secs * time::NANOS_PER_SEC) as nat,
                now@,
            ),
            final(self).refreshes() == old(self).refreshes(),
            ok == request_window::admits(
                request_window::log_of(old(self).registers(), ip),
                (old(self).limits().register_window_secs * time::NANOS_PER_SEC) as nat,
                old(self).limits().register_max_per_ip,
                now@,
            ),
    {
        self.register_windows.check(ip, Duration::from_secs(self.config.register_window_secs), self.config.register_max_per_ip, now)
    }

    /// Records a registration.
    pub fn record_register(&mut self, ip: IpAddr, now: Instant)
        requires
            old(self).wf(),
        ensures
            final(self).wf(),
            final(self).limits() == old(self).limits(),
            final(self).registers() == request_window::recorded_at(
                old(self).registers(),
                ip,
                now@,
            ),
            final(self).refreshes() == old(self).refreshes(),
    {
        self.register_windows.record(ip, now);
    }

    /// Whether one more refresh is allowed.
    pub fn check_refresh(&mut self, ip: IpAddr, now: Instant) -> (ok: bool)
        requires
            old(self).wf(),
        ensures
            final(self).wf(),
            final(self).limits() == old(self).limits(),
            final(self).refreshes() == request_window::asked_at(
                old(self).refreshes(),
                ip,
                (old(self).limits().refresh_window_secs * time::NANOS_PER_SEC) as nat,
                now@,
            ),
            final(self).registers() == old(self).registers(),
            ok == request_window::admits(
                request_window::log_of(old(self).refreshes(), ip),
                (old(self).limits().refresh_window_secs * time::NANOS_PER_SEC) as nat,
                old(self).limits().refresh_max_per_ip,
                now@,
            ),
    {
        self.refresh_windows.check(ip, Duration::from_secs(self.config.refresh_window_secs), self.config.refresh_max_per_ip, now)
    }

    /// Records a refresh.
    pub fn record_refresh(&mut self, ip: IpAddr, now: Instant)
        requires
            old(self).wf(),
        ensures
            final(self).wf(),
            final(self).limits() == old(self).limits(),
            final(self).refreshes() == request_window::recorded_at(
                old(self).refreshes(),
                ip,
                now@,
            ),
            final(self).registers() == old(self).registers(),
    {
        self.refresh_windows.record(ip, now);
    }

    /// The seconds until one more registration is allowed, if it is not now.
    pub fn seconds_until_register(&mut self, ip: IpAddr, now: Instant) -> (r: Option<u64>)
        requires
            old(self).wf(),
        ensures
            final(self).wf(),
            final(self).limits() == old(self).limits(),
            final(self).registers() == request_window::asked_at(
                old(self).registers(),
                ip,
                (old(self).limits().register_window_secs * time::NANOS_PER_SEC) as nat,
                now@,
            ),
            final(self).refreshes() == old(self).refreshes(),
            r == request_window::retry_after(
                request_window::log_of(old(self).registers(), ip),
                (old(self).limits().register_window_secs * time::NANOS_PER_SEC) as nat,
                old(self).limits().register_max_per_ip,
                now@,
            ),
    {
        self.register_windows.seconds_until_retry(
            ip,
            Duration::from_secs(self.config.register_window_secs),
            self.config.register_max_per_ip,
            now,
        )
    }

    /// The seconds until one more refresh is allowed, if it is not now.
    pub fn seconds_until_refresh(&mut self, ip: IpAddr, now: Instant) -> (r: Option<u64>)
        requires
            old(self).wf(),
        ensures
            final(self).wf(),
            final(self).limits() == old(self).limits(),
            final(self).refreshes() == request_window::asked_at(
                old(self).refreshes(),
                ip,
                (old(self).limits().refresh_window_secs * time::NANOS_PER_SEC) as nat,
                now@,
            ),
            final(self).registers() == old(self).registers(),
            r == request_window::retry_after(
                request_window::log_of(old(self).refreshes(), ip),
                (old(self).limits().refresh_window_secs * time::NANOS_PER_SEC) as nat,
                old(self).limits().refresh_max_per_ip,
                now@,
            ),
    {
        self.refresh_windows.seconds_until_retry(
            ip,
            Duration::from_secs(self.config.refresh_window_secs),
            self.config.refresh_max_per_ip,
            now,
        )
    }

    /// Forgets everything.
    pub fn clear(&mut self)
        ensures
            final(self).wf(),
            final(self).limits() == old(self).limits(),
            final(self).registers() == Map::<IpAddr, Seq<nat>>::empty(),
            final(self).refreshes() == Map::<IpAddr, Seq<nat>>::empty(),
    {
        self.register_windows.clear();
        self.refresh_windows.clear();
    }

    /// Drops what is older than the windows, and says how many keys went.
    pub fn prune_stale(&mut self, now: Instant) -> (n: usize)
        requires
            old(self).wf(),
            old(self).registers().len() + old(self).refreshes().len() <= usize::MAX,
        ensures
            final(self).wf(),
            final(self).limits() == old(self).limits(),
            final(self).registers() == request_window::pruned(
                old(self).registers(),
                (old(self).limits().register_window_secs * time::NANOS_PER_SEC) as nat,
                now@,
            ),
            final(self).refreshes() == request_window::pruned(
                old(self).refreshes(),
                (old(self).limits().refresh_window_secs * time::NANOS_PER_SEC) as nat,
                now@,
            ),
            n == old(self).registers().len() - final(self).registers().len() + old(
                self,
            ).refreshes().len() - final(self).refreshes().len(),
    {
        let first: usize = self.register_windows.prune_stale(Duration::from_secs(self.config.register_window_secs), now);
        let second: usize = self.refresh_windows.prune_stale(Duration::from_secs(self.config.refresh_window_secs), now);
        first + second
    }
}

/// Every registration counts toward its address, and only there: one more is
/// allowed exactly where fewer than the limit are younger than the window, and a
/// wait is told exactly where it is not.
pub proof fn law_registrations_are_limited(
    recording: &mut AuthRateLimiter,
    checking: &mut AuthRateLimiter,
    waiting: &mut AuthRateLimiter,
    key: IpAddr,
    who: IpAddr,
    now: Instant,
    later: Instant,
    ok: bool,
    wait: Option<u64>,
)
    requires
        call_ensures(AuthRateLimiter::record_register, (recording, key, now), ()),
        *old(checking) == *final(recording),
        call_ensures(AuthRateLimiter::check_register, (checking, who, later), ok),
        *old(waiting) == *final(recording),
        call_ensures(AuthRateLimiter::seconds_until_register, (waiting, who, later), wait),
        request_window::log_of(final(recording).registers(), who).len() <= u32::MAX,
    ensures
        request_window::log_of(final(recording).registers(), who) == if who == key {
            request_window::log_of(old(recording).registers(), who).push(now@)
        } else {
            request_window::log_of(old(recording).registers(), who)
        },
        final(recording).refreshes() == old(recording).refreshes(),
        final(recording).limits() == old(recording).limits(),
        ok <==> request_window::young(
            request_window::log_of(final(recording).registers(), who),
            (old(recording).limits().register_window_secs * 1_000_000_000) as nat,
            later@,
        ) < old(recording).limits().register_max_per_ip,
        old(recording).limits().register_max_per_ip > 0 ==> (wait is None <==> ok),
{
    let c = old(recording).limits();
    let log = request_window::log_of(final(recording).registers(), who);
    let window = (old(recording).limits().register_window_secs * 1_000_000_000) as nat;
    log.lemma_filter_len(|t: nat| time::elapsed(later@, t) < window);
    let n = request_window::young(log, window, later@);
    assert(n as u32 == n);
    if c.register_max_per_ip > 0 {
        request_window::law_wait_iff_refused(log, window, c.register_max_per_ip, later@);
    }
}

/// Every refresh counts toward its address, and only there: one more is allowed
/// exactly where fewer than the limit are younger than the window, and a wait is
/// told exactly where it is not.
pub proof fn law_refreshes_are_limited(
    recording: &mut AuthRateLimiter,
    checking: &mut AuthRateLimiter,
    waiting: &mut AuthRateLimiter,
    key: IpAddr,
    who: IpAddr,
    now: Instant,
    later: Instant,
    ok: bool,
    wait: Option<u64>,
)
    requires
        call_ensures(AuthRateLimiter::record_refresh, (recording, key, now), ()),
        *old(checking) == *final(recording),
        call_ensures(AuthRateLimiter::check_refresh, (checking, who, later), ok),
        *old(waiting) == *final(recording),
        call_ensures(AuthRateLimiter::seconds_until_refresh, (waiting, who, later), wait),
        request_window::log_of(final(recording).refreshes(), who).len() <= u32::MAX,
    ensures
        request_window::log_of(final(recording).refreshes(), who) == if who == key {
            request_window::log_of(old(recording).refreshes(), who).push(now@)
        } else {
            request_window::log_of(old(recording).refreshes(), who)
        },
        final(recording).registers() == old(recording).registers(),
        final(recording).limits() == old(recording).limits(),
        ok <==> request_window::young(
            request_window::log_of(final(recording).refreshes(), who),
            (old(recording).limits().refresh_window_secs * 1_000_000_000) as nat,
            later@,
        ) < old(recording).limits().refresh_max_per_ip,
        old(recording).limits().refresh_max_per_ip > 0 ==> (wait is None <==> ok),
{
    let c = old(recording).limits();
    let log = request_window::log_of(final(recording).refreshes(), who);
    let window = (old(recording).limits().refresh_window_secs * 1_000_000_000) as nat;
    log.lemma_filter_len(|t: nat| time::elapsed(later@, t) < window);
    let n = request_window::young(log, window, later@);
    assert(n as u32 == n);
    if c.refresh_max_per_ip > 0 {
        request_window::law_wait_iff_refused(log, window, c.refresh_max_per_ip, later@);
    }
}

/// By default an address may register five times in an hour and refresh thirty times
/// in a minute. A limiter that was cleared allows as much as a new one; dropping what
/// is stale changes no answer.
pub proof fn law_clearing_and_pruning(
    c: AuthRateLimiterConfig,
    clearing: &mut AuthRateLimiter,
    after: &mut AuthRateLimiter,
    pruning: &mut AuthRateLimiter,
    before_pruning: &mut AuthRateLimiter,
    after_pruning: &mut AuthRateLimiter,
    ip: IpAddr,
    now: Instant,
    later: Instant,
    n: usize,
    cleared_ok: bool,
    ok_before: bool,
    ok_after: bool,
)
    requires
        call_ensures(AuthRateLimiterConfig::default, (), c),
        call_ensures(AuthRateLimiter::clear, (clearing,), ()),
        *old(after) == *final(clearing),
        call_ensures(AuthRateLimiter::check_register, (after, ip, later), cleared_ok),
        call_ensures(AuthRateLimiter::prune_stale, (pruning, now), n),
        *old(before_pruning) == *old(pruning),
        call_ensures(AuthRateLimiter::check_register, (before_pruning, ip, later), ok_before),
        *old(after_pruning) == *final(pruning),
        call_ensures(AuthRateLimiter::check_register, (after_pruning, ip, later), ok_after),
        now@ <= later@,
    ensures
        c.register_max_per_ip == 5,
        c.register_window_secs == 3600,
        c.refresh_max_per_ip == 30,
        c.refresh_window_secs == 60,
        cleared_ok <==> old(clearing).limits().register_max_per_ip > 0,
        ok_after == ok_before,
{
    reveal(Seq::filter);
    request_window::law_pruning_changes_no_answer(
        old(pruning).registers(),
        ip,
        (old(pruning).limits().register_window_secs * time::NANOS_PER_SEC) as nat,
        old(pruning).limits().register_max_per_ip,
        now@,
        later@,
    );
}

} // verus!
