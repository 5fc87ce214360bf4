//! Limits on requests that change channels, by user.

use crate::abuse::queue;
use crate::abuse::sliding_window;
use crate::abuse::sliding_window::SlidingWindow;
use crate::ids::Uuid;
use crate::table;
use crate::table::Table;
use crate::table::TableKey;
use crate::time;
use crate::time::Duration;
use crate::time::Instant;
use vstd::prelude::*;

verus! {

/// How many requests a user may make, and in what time.
pub struct ChannelRateLimiterConfig {
    pub max_per_user: u32,
    pub window_secs: u64,
}

impl Default for ChannelRateLimiterConfig {
    fn default() -> (c: ChannelRateLimiterConfig)
        ensures
            c.max_per_user == 30,
            c.window_secs == 60,
    {
        ChannelRateLimiterConfig { max_per_user: 30, window_secs: 60 }
    }
}

/// Limits requests that change channels.
pub struct ChannelRateLimiter {
    config: ChannelRateLimiterConfig,
    windows: Table<Uuid, SlidingWindow>,
}

/// The requests of a user; one without a window has none.
pub open spec fn log_of(m: Map<Uuid, Seq<nat>>, user_id: Uuid) -> Seq<nat> {
    if m.contains_key(user_id) {
        m[user_id]
    } else {
        Seq::empty()
    }
}

impl ChannelRateLimiter {
    /// What holds of every limiter: its windows have the configured length.
    pub closed spec fn wf(&self) -> bool {
        &&& self.windows.wf()
        &&& forall|u: Uuid|
            #[trigger] self.windows@.contains_key(u) ==> self.windows@[u].length() == self.window()
    }

    /// The limits.
    pub closed spec fn limits(&self) -> ChannelRateLimiterConfig {
        self.config
    }

    /// The length of the windows.
    pub closed spec fn window(&self) -> nat {
        (self.config.window_secs * time::NANOS_PER_SEC) as nat
    }

    /// The requests of each user.
    pub closed spec fn logs(&self) -> Map<Uuid, Seq<nat>> {
        self.windows@.map_values(|w: SlidingWindow| w.log())
    }

    /// A limiter that has seen no request.
    pub fn new(config: ChannelRateLimiterConfig) -> (l: ChannelRateLimiter)
        ensures
            l.wf(),
            l.limits() == config,
            l.window() == config.window_secs * time::NANOS_PER_SEC,
            l.logs() == Map::<Uuid, Seq<nat>>::empty(),
    {
        let l = ChannelRateLimiter { config, windows: Table::new() };
        assert(l.logs() =~= Map::<Uuid, Seq<nat>>::empty());
        l
    }

    /// Whether a user may make one more request.
    pub fn check(&mut self, user_id: Uuid, now: Instant) -> (ok: bool)
        requires
            old(self).wf(),
        ensures
            final(self).wf(),
            final(self).limits() == old(self).limits(),
            final(self).window() == old(self).window(),
            ({
                let left = sliding_window::pruned(
                    log_of(old(self).logs(), user_id),
                    old(self).window(),
                    now@,
                );
                &&& final(self).logs() == old(self).logs().insert(user_id, left)
                &&& ok == (left.len() < old(self).limits().max_per_user)
            }),
    {
        let dur = Duration::from_secs(self.config.window_secs);
        let w = self.windows.entry_mut(user_id, SlidingWindow::new(dur));
        let n: usize = w.count(now);
        let ghost left = w.log();
        assert(self.logs() =~= old(self).logs().insert(user_id, left));
        n < self.config.max_per_user as usize
    }

    /// The seconds until a user may make a request, if not now.
    pub fn seconds_until_retry(&mut self, user_id: Uuid, now: Instant) -> (r: Option<u64>)
        requires
            old(self).wf(),
        ensures
            final(self).wf(),
            final(self).limits() == old(self).limits(),
            final(self).window() == old(self).window(),
            final(self).logs() == old(self).logs().insert(
                user_id,
                log_of(old(self).logs(), user_id),
            ),
            r == sliding_window::retry_after(
                log_of(old(self).logs(), user_id),
                old(self).window(),
                old(self).limits().max_per_user as nat,
                now@,
            ),
    {
        let max: usize = self.config.max_per_user as usize;
        let dur = Duration::from_secs(self.config.window_secs);
        let w = self.windows.entry_mut(user_id, SlidingWindow::new(dur));
        let r = w.seconds_until_retry(max, now);
        assert(self.logs() =~= old(self).logs().insert(
            user_id,
            log_of(old(self).logs(), user_id),
        ));
        r
    }

    /// Records a request of a user.
    pub fn record(&mut self, user_id: Uuid, now: Instant)
        requires
            old(self).wf(),
        ensures
            final(self).wf(),
            final(self).limits() == old(self).limits(),
            final(self).window() == old(self).window(),
            final(self).logs() == old(self).logs().insert(
                user_id,
                log_of(old(self).logs(), user_id).push(now@),
            ),
    {
        let dur = Duration::from_secs(self.config.window_secs);
        let w = self.windows.entry_mut(user_id, SlidingWindow::new(dur));
        w.add(now);
        assert(self.logs() =~= old(self).logs().insert(
            user_id,
            log_of(old(self).logs(), user_id).push(now@),
        ));
    }

    /// Forgets every request.
    pub fn clear(&mut self)
        requires
            old(self).wf(),
        ensures
            final(self).wf(),
            final(self).limits() == old(self).limits(),
            final(self).window() == old(self).window(),
            final(self).logs() == Map::<Uuid, Seq<nat>>::empty(),
    {
        self.windows.clear();
        assert(self.logs() =~= Map::<Uuid, Seq<nat>>::empty());
    }

    /// Drops what is too old, and the users that are left without a request.
    /// Says how many users went.
    pub fn prune_stale(&mut self, now: Instant) -> (n: usize)
        requires
            old(self).wf(),
        ensures
            final(self).wf(),
            final(self).limits() == old(self).limits(),
            final(self).window() == old(self).window(),
            final(self).logs() == table::kept(
                old(self).logs().map_values(
                    |log: Seq<nat>| sliding_window::pruned(log, old(self).window(), now@),
                ),
                |log: Seq<nat>| log.len() > 0,
            ),
            n == old(self).logs().len() - final(self).logs().len(),
    {
        let ghost before = self.windows;
        let total: usize = self.windows.len();
        proof {
            self.windows.lemma_len();
            self.windows.lemma_positions();
        }
        let mut i: usize = 0;
        while i < total
            invariant
                i <= total,
                total == before.spec_len(),
                total == self.windows.spec_len(),
                before == old(self).windows,
                old(self).wf(),
                self.windows.wf(),
                self.config == old(self).config,
                self.windows@.dom() == before@.dom(),
                forall|j: int|
                    0 <= j < total ==> #[trigger] self.windows.id_at(j) == before.id_at(j),
                forall|j: int|
                    #![trigger before.id_at(j)]
                    0 <= j < total ==> before@.contains_key(before.id_at(j))
                        && self.windows@[before.id_at(j)].length() == old(self).window()
                        && self.windows@[before.id_at(j)].log() == (if j < i {
                        sliding_window::pruned(
                            before@[before.id_at(j)].log(),
                            old(self).window(),
                            now@,
                        )
                    } else {
                        before@[before.id_at(j)].log()
                    }),
            decreases total - i,
        {
            let ghost mid = self.windows;
            proof {
                before.lemma_positions();
                assert(mid.id_at(i as int) == before.id_at(i as int));
            }
            let w = self.windows.value_at_mut(i);
            w.prune(now);
            i = i + 1;
        }
        proof {
            before.lemma_positions();
        }
        let keep = |w: &SlidingWindow| -> (b: bool)
            ensures
                b == (w.log().len() > 0),
            { w.has_any() };
        let ghost mid = self.windows;
        let n: usize = self.windows.retain(keep, Ghost(|w: SlidingWindow| w.log().len() > 0));
        proof {
            let all = old(self).logs().map_values(
                |log: Seq<nat>| sliding_window::pruned(log, old(self).window(), now@),
            );
            assert forall|u: Uuid| #[trigger] mid@.contains_key(u) implies mid@[u].log() == all[u]
                && mid@[u].length() == old(self).window() by {
                let j = choose|j: int| 0 <= j < total && #[trigger] before.id_at(j) == u;
                assert(before@.contains_key(before.id_at(j)));
            }
            assert(self.logs() =~= table::kept(all, |log: Seq<nat>| log.len() > 0));
            assert(old(self).logs().dom() =~= before@.dom());
            assert(self.logs().dom() =~= self.windows@.dom());
        }
        n
    }
}

/// Every request counts toward its user, and only there. Where the clock never
/// went back, one more is allowed exactly where fewer than the limit are no older
/// than the window, and a wait is told exactly where it is not.
pub proof fn law_requests_of_a_user_are_limited(
    recording: &mut ChannelRateLimiter,
    checking: &mut ChannelRateLimiter,
    waiting: &mut ChannelRateLimiter,
    key: Uuid,
    who: Uuid,
    now: Instant,
    later: Instant,
    ok: bool,
    wait: Option<u64>,
)
    requires
        call_ensures(ChannelRateLimiter::record, (recording, key, now), ()),
        *old(checking) == *final(recording),
        call_ensures(ChannelRateLimiter::check, (checking, who, later), ok),
        *old(waiting) == *final(recording),
        call_ensures(ChannelRateLimiter::seconds_until_retry, (waiting, who, later), wait),
        queue::in_order(log_of(final(recording).logs(), who)),
    ensures
        log_of(final(recording).logs(), who) == if who == key {
            log_of(old(recording).logs(), who).push(now@)
        } else {
            log_of(old(recording).logs(), who)
        },
        final(recording).limits() == old(recording).limits(),
        ok <==> log_of(final(recording).logs(), who).filter(
            |t: nat| time::elapsed(later@, t) <= old(recording).window(),
        ).len() < old(recording).limits().max_per_user,
        old(recording).limits().max_per_user > 0 ==> (wait is None <==> ok),
        log_of(final(checking).logs(), key).len() <= log_of(final(recording).logs(), key).len(),
        final(waiting).logs() == final(recording).logs().insert(
            who,
            log_of(final(recording).logs(), who),
        ),
{
    let log = log_of(final(recording).logs(), who);
    let window = old(recording).window();
    let max = old(recording).limits().max_per_user as nat;
    sliding_window::law_pruning_keeps_what_is_live(log, window, max, later@);
    log.lemma_filter_len(|t: nat| time::elapsed(later@, t) <= window);
}

/// The window has the length that the limiter was made with, in seconds.
pub proof fn law_window_as_configured(config: ChannelRateLimiterConfig, l: ChannelRateLimiter)
    requires
        call_ensures(ChannelRateLimiter::new, (config,), l),
    ensures
        l.window() == config.window_secs * 1_000_000_000,
        l.limits() == config,
        l.logs().dom().is_empty(),
{
}

/// By default a user may make thirty requests in a minute; a limiter that was cleared
/// holds none against anyone.
pub proof fn law_clearing_forgets(
    c: ChannelRateLimiterConfig,
    clearing: &mut ChannelRateLimiter,
    user_id: Uuid,
)
    requires
        call_ensures(ChannelRateLimiterConfig::default, (), c),
        call_ensures(ChannelRateLimiter::clear, (clearing,), ()),
    ensures
        c.max_per_user == 30,
        c.window_secs == 60,
        log_of(final(clearing).logs(), user_id).len() == 0,
        final(clearing).limits() == old(clearing).limits(),
{
}

} // verus!
