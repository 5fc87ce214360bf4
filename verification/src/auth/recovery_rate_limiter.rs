//! Limits on attempts to recover an account, by address and recovery id.

use crate::abuse::request_window;
use crate::abuse::request_window::KeyedWindows;
use crate::net::IpAddr;
use crate::table::TableKey;
use crate::time;
use crate::time::Duration;
use crate::time::Instant;
use vstd::prelude::*;

verus! {

/// How many recoveries an address and a recovery id may attempt, and in what
/// time.
pub struct RecoveryRateLimiterConfig {
    pub per_ip_max: u32,
    pub per_ip_window_secs: u64,
    pub per_rid_max: u32,
    pub per_rid_window_secs: u64,
}

impl Default for RecoveryRateLimiterConfig {
    fn default() -> (c: RecoveryRateLimiterConfig)
        ensures
            c.per_ip_max == 5,
            c.per_ip_window_secs == 3600,
            c.per_rid_max == 3,
            c.per_rid_window_secs == 3600,
    {
        RecoveryRateLimiterConfig {
            per_ip_max: 5,
            per_ip_window_secs: 3600,
            per_rid_max: 3,
            per_rid_window_secs: 3600,
        }
    }
}

/// Limits attempts to recover an account.
pub struct RecoveryRateLimiter {
    config: RecoveryRateLimiterConfig,
    ip_windows: KeyedWindows<IpAddr>,
    rid_windows: KeyedWindows<String>,
}

impl RecoveryRateLimiter {
    /// What holds of every limiter.
    pub closed spec fn wf(&self) -> bool {
        self.ip_windows.wf() && self.rid_windows.wf()
    }

    /// The limits.
    pub closed spec fn limits(&self) -> RecoveryRateLimiterConfig {
        self.config
    }

    /// The attempts of each address.
    pub closed spec fn by_ip(&self) -> Map<IpAddr, Seq<nat>> {
        self.ip_windows.logs()
    }

    /// The attempts on each recovery id.
    pub closed spec fn by_recovery_id(&self) -> Map<Seq<char>, Seq<nat>> {
        self.rid_windows.logs()
    }

    /// A limiter that has seen nothing.
    pub fn new(config: RecoveryRateLimiterConfig) -> (l: RecoveryRateLimiter)
        ensures
            l.wf(),
            l.limits() == config,
            l.by_ip() == Map::<IpAddr, Seq<nat>>::empty(),
            l.by_recovery_id() == Map::<Seq<char>, Seq<nat>>::empty(),
    {
        RecoveryRateLimiter { config, ip_windows: KeyedWindows::new(), rid_windows: KeyedWindows::new() }
    }

    /// Whether one more attempt from an address is allowed.
    pub fn check_ip(&mut self, ip: IpAddr, now: Instant) -> (ok: bool)
        requires
            old(self).wf(),
        ensures
            final(self).wf(),
            final(self).limits() == old(self).limits(),
            final(self).by_ip() == request_window::asked_at(
                old(self).by_ip(),
                ip,
                (old(self).limits().per_ip_window_secs * time::NANOS_PER_SEC) as nat,
                now@,
            ),
            final(self).by_recovery_id() == old(self).by_recovery_id(),
            ok == request_window::admits(
                request_window::log_of(old(self).by_ip(), ip),
                (old(self).limits().per_ip_window_secs * time::NANOS_PER_SEC) as nat,
                old(self).limits().per_ip_max,
                now@,
            ),
    {
        self.ip_windows.check(ip, Duration::from_secs(self.config.per_ip_window_secs), self.config.per_ip_max, now)
    }

    /// Records a attempt from an address.
    pub fn record_ip(&mut self, ip: IpAddr, now: Instant)
        requires
            old(self).wf(),
        ensures
            final(self).wf(),
            final(self).limits() == old(self).limits(),
            final(self).by_ip() == request_window::recorded_at(
                old(self).by_ip(),
                ip,
                now@,
            ),
            final(self).by_recovery_id() == old(self).by_recovery_id(),
    {
        self.ip_windows.record(ip, now);
    }

    /// Whether one more attempt on a recovery id is allowed.
    pub fn check_recovery_id(&mut self, rid: &str, now: Instant) -> (ok: bool)
        requires
            old(self).wf(),
        ensures
            final(self).wf(),
            final(self).limits() == old(self).limits(),
            final(self).by_recovery_id() == request_window::asked_at(
                old(self).by_recovery_id(),
                rid@,
                (old(self).limits().per_rid_window_secs * time::NANOS_PER_SEC) as nat,
                now@,
            ),
            final(self).by_ip() == old(self).by_ip(),
            ok == request_window::admits(
                request_window::log_of(old(self).by_recovery_id(), rid@),
                (old(self).limits().per_rid_window_secs * time::NANOS_PER_SEC) as nat,
                old(self).limits().per_rid_max,
                now@,
            ),
    {
        self.rid_windows.check(rid.to_owned(), Duration::from_secs(self.config.per_rid_window_secs), self.config.per_rid_max, now)
    }

    /// Records a attempt on a recovery id.
    pub fn record_recovery_id(&mut self, rid: &str, now: Instant)
        requires
            old(self).wf(),
        ensures
            final(self).wf(),
            final(self).limits() == old(self).limits(),
            final(self).by_recovery_id() == request_window::recorded_at(
                old(self).by_recovery_id(),
                rid@,
                now@,
            ),
            final(self).by_ip() == old(self).by_ip(),
    {
        self.rid_windows.record(rid.to_owned(), now);
    }

    /// The seconds until one more attempt from an address is allowed, if it is not now.
    pub fn seconds_until_ip(&mut self, ip: IpAddr, now: Instant) -> (r: Option<u64>)
        requires
            old(self).wf(),
        ensures
            final(self).wf(),
            final(self).limits() == old(self).limits(),
            final(self).by_ip() == request_window::asked_at(
                old(self).by_ip(),
                ip,
                (old(self).limits().per_ip_window_secs * time::NANOS_PER_SEC) as nat,
                now@,
            ),
            final(self).by_recovery_id() == old(self).by_recovery_id(),
            r == request_window::retry_after(
                request_window::log_of(old(self).by_ip(), ip),
                (old(self).limits().per_ip_window_secs * time::NANOS_PER_SEC) as nat,
                old(self).limits().per_ip_max,
                now@,
            ),
    {
        self.ip_windows.seconds_until_retry(
            ip,
            Duration::from_secs(self.config.per_ip_window_secs),
            self.config.per_ip_max,
            now,
        )
    }

    /// The seconds until one more attempt on a recovery id is allowed, if it is not now.
    pub fn seconds_until_recovery_id(&mut self, rid: &str, now: Instant) -> (r: Option<u64>)
        requires
            old(self).wf(),
        ensures
            final(self).wf(),
            final(self).limits() == old(self).limits(),
            final(self).by_recovery_id() == request_window::asked_at(
                old(self).by_recovery_id(),
                rid@,
                (old(self).limits().per_rid_window_secs * time::NANOS_PER_SEC) as nat,
                now@,
            ),
            final(self).by_ip() == old(self).by_ip(),
            r == request_window::retry_after(
                request_window::log_of(old(self).by_recovery_id(), rid@),
                (old(self).limits().per_rid_window_secs * time::NANOS_PER_SEC) as nat,
                old(self).limits().per_rid_max,
                now@,
            ),
    {
        self.rid_windows.seconds_until_retry(
            rid.to_owned(),
            Duration::from_secs(self.config.per_rid_window_secs),
            self.config.per_rid_max,
            now,
        )
    }

    /// Forgets everything.
    pub fn clear(&mut self)
        ensures
            final(self).wf(),
            final(self).limits() == old(self).limits(),
            final(self).by_ip() == Map::<IpAddr, Seq<nat>>::empty(),
            final(self).by_recovery_id() == Map::<Seq<char>, Seq<nat>>::empty(),
    {
        self.ip_windows.clear();
        self.rid_windows.clear();
    }

    /// Drops what is older than the windows, and says how many keys went.
    pub fn prune_stale(&mut self, now: Instant) -> (n: usize)
        requires
            old(self).wf(),
            old(self).by_ip().len() + old(self).by_recovery_id().len() <= usize::MAX,
        ensures
            final(self).wf(),
            final(self).limits() == old(self).limits(),
            final(self).by_ip() == request_window::pruned(
                old(self).by_ip(),
                (old(self).limits().per_ip_window_secs * time::NANOS_PER_SEC) as nat,
                now@,
            ),
            final(self).by_recovery_id() == request_window::pruned(
                old(self).by_recovery_id(),
                (old(self).limits().per_rid_window_secs * time::NANOS_PER_SEC) as nat,
                now@,
            ),
            n == old(self).by_ip().len() - final(self).by_ip().len() + old(
                self,
            ).by_recovery_id().len() - final(self).by_recovery_id().len(),
    {
        let first: usize = self.ip_windows.prune_stale(Duration::from_secs(self.config.per_ip_window_secs), now);
        let second: usize = self.rid_windows.prune_stale(Duration::from_secs(self.config.per_rid_window_secs), now);
        first + second
    }
}

/// Every attempt counts toward its address, and only there: one more is allowed
/// exactly where fewer than the limit are younger than the window, and a wait is
/// told exactly where it is not.
pub proof fn law_recoveries_from_an_address_are_limited(
    recording: &mut RecoveryRateLimiter,
    checking: &mut RecoveryRateLimiter,
    waiting: &mut RecoveryRateLimiter,
    key: IpAddr,
    who: IpAddr,
    now: Instant,
    later: Instant,
    ok: bool,
    wait: Option<u64>,
)
    requires
        call_ensures(RecoveryRateLimiter::record_ip, (recording, key, now), ()),
        *old(checking) == *final(recording),
        call_ensures(RecoveryRateLimiter::check_ip, (checking, who, later), ok),
        *old(waiting) == *final(recording),
        call_ensures(RecoveryRateLimiter::seconds_until_ip, (waiting, who, later), wait),
        request_window::log_of(final(recording).by_ip(), who).len() <= u32::MAX,
    ensures
        request_window::log_of(final(recording).by_ip(), who) == if who == key {
            request_window::log_of(old(recording).by_ip(), who).push(now@)
        } else {
            request_window::log_of(old(recording).by_ip(), who)
        },
        final(recording).by_recovery_id() == old(recording).by_recovery_id(),
        final(recording).limits() == old(recording).limits(),
        ok <==> request_window::young(
            request_window::log_of(final(recording).by_ip(), who),
            (old(recording).limits().per_ip_window_secs * 1_000_000_000) as nat,
            later@,
        ) < old(recording).limits().per_ip_max,
        old(recording).limits().per_ip_max > 0 ==> (wait is None <==> ok),
{
    let c = old(recording).limits();
    let log = request_window::log_of(final(recording).by_ip(), who);
    let window = (old(recording).limits().per_ip_window_secs * 1_000_000_000) as nat;
    log.lemma_filter_len(|t: nat| time::elapsed(later@, t) < window);
    let n = request_window::young(log, window, later@);
    assert(n as u32 == n);
    if c.per_ip_max > 0 {
        request_window::law_wait_iff_refused(log, window, c.per_ip_max, later@);
    }
}

/// Every attempt counts toward its recovery ID, and only there: one more is
/// allowed exactly where fewer than the limit are younger than the window, and a
/// wait is told exactly where it is not.
pub proof fn law_recoveries_of_an_account_are_limited(
    recording: &mut RecoveryRateLimiter,
    checking: &mut RecoveryRateLimiter,
    waiting: &mut RecoveryRateLimiter,
    key: &str,
    who: &str,
    now: Instant,
    later: Instant,
    ok: bool,
    wait: Option<u64>,
)
    requires
        call_ensures(RecoveryRateLimiter::record_recovery_id, (recording, key, now), ()),
        *old(checking) == *final(recording),
        call_ensures(RecoveryRateLimiter::check_recovery_id, (checking, who, later), ok),
        *old(waiting) == *final(recording),
        call_ensures(RecoveryRateLimiter::seconds_until_recovery_id, (waiting, who, later), wait),
        request_window::log_of(final(recording).by_recovery_id(), who@).len() <= u32::MAX,
    ensures
        request_window::log_of(final(recording).by_recovery_id(), who@) == if who@ == key@ {
            request_window::log_of(old(recording).by_recovery_id(), who@).push(now@)
        } else {
            request_window::log_of(old(recording).by_recovery_id(), who@)
        },
        final(recording).by_ip() == old(recording).by_ip(),
        final(recording).limits() == old(recording).limits(),
        ok <==> request_window::young(
            request_window::log_of(final(recording).by_recovery_id(), who@),
            (old(recording).limits().per_rid_window_secs * 1_000_000_000) as nat,
            later@,
        ) < old(recording).limits().per_rid_max,
        old(recording).limits().per_rid_max > 0 ==> (wait is None <==> ok),
{
    let c = old(recording).limits();
    let log = request_window::log_of(final(recording).by_recovery_id(), who@);
    let window = (old(recording).limits().per_rid_window_secs * 1_000_000_000) as nat;
    log.lemma_filter_len(|t: nat| time::elapsed(later@, t) < window);
    let n = request_window::young(log, window, later@);
    assert(n as u32 == n);
    if c.per_rid_max > 0 {
        request_window::law_wait_iff_refused(log, window, c.per_rid_max, later@);
    }
}

/// By default an address may attempt five recoveries in an hour, and an account three.
/// A limiter that was cleared holds nothing against anyone.
pub proof fn law_clearing_forgets(
    c: RecoveryRateLimiterConfig,
    clearing: &mut RecoveryRateLimiter,
    ip: IpAddr,
    recovery_id: Seq<char>,
)
    requires
        call_ensures(RecoveryRateLimiterConfig::default, (), c),
        call_ensures(RecoveryRateLimiter::clear, (clearing,), ()),
    ensures
        c.per_ip_max == 5,
        c.per_ip_window_secs == 3600,
        c.per_rid_max == 3,
        c.per_rid_window_secs == 3600,
        request_window::log_of(final(clearing).by_ip(), ip).len() == 0,
        request_window::log_of(final(clearing).by_recovery_id(), recovery_id).len() == 0,
        final(clearing).limits() == old(clearing).limits(),
{
}

} // verus!
